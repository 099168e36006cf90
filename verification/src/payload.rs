//! The wire payload of the periodic color signal: `RGB(a, b, c)`, three
//! decimal fractions in `[0, 1)`.
//!
//! Each component on the wire is `0.` followed by one or more digits. The
//! library carries a component as a count of thousandths (`0 <= c < 1000`):
//! the parser reads the first three fractional digits, zero-padded, and
//! truncates anything finer; the renderer writes the canonical three-digit
//! form. A malformed payload is rejected with the fixed reason
//! `Invalid RGB format`.

use vstd::prelude::*;

verus! {

/// Whether a byte is an ASCII decimal digit.
pub open spec fn is_digit_byte(x: u8) -> bool {
    48 <= x <= 57
}

/// A nonempty run of ASCII digits.
pub open spec fn is_digit_run(d: Seq<u8>) -> bool {
    &&& d.len() >= 1
    &&& forall|i: int| 0 <= i < d.len() ==> is_digit_byte(#[trigger] d[i])
}

/// The numeric value of a digit byte.
pub open spec fn digit_val(x: u8) -> u16 {
    (x - 48) as u16
}

/// The count of thousandths spelled by a fractional digit run: its first
/// three digits, zero-padded on the right; digits past the third are below a
/// thousandth and truncate away.
pub open spec fn thousandths_of(d: Seq<u8>) -> u16
    recommends
        is_digit_run(d),
{
    (digit_val(d[0]) * 100 + (if d.len() >= 2 {
        digit_val(d[1]) * 10
    } else {
        0
    }) + (if d.len() >= 3 {
        digit_val(d[2])
    } else {
        0
    })) as u16
}

/// A payload with the given three fractional digit runs:
/// `RGB(0.` d1 `, 0.` d2 `, 0.` d3 `)`.
pub open spec fn rgb_of(d1: Seq<u8>, d2: Seq<u8>, d3: Seq<u8>) -> Seq<u8> {
    seq![82u8, 71u8, 66u8, 40u8, 48u8, 46u8] + d1 + seq![44u8, 32u8, 48u8, 46u8] + d2 + seq![
        44u8,
        32u8,
        48u8,
        46u8,
    ] + d3 + seq![41u8]
}

/// Whether a byte string is a well-formed payload: three components in
/// order, each `0.` followed by one or more digits.
pub open spec fn valid_rgb(s: Seq<u8>) -> bool {
    exists|d1: Seq<u8>, d2: Seq<u8>, d3: Seq<u8>|
        {
            &&& is_digit_run(d1)
            &&& is_digit_run(d2)
            &&& is_digit_run(d3)
            &&& s == #[trigger] rgb_of(d1, d2, d3)
        }
}

/// Where every byte of a payload with digit runs `d1`, `d2`, `d3` sits: the
/// fixed punctuation around the runs, and the runs themselves.
pub proof fn lemma_rgb_of_shape(d1: Seq<u8>, d2: Seq<u8>, d3: Seq<u8>)
    ensures
        ({
            let n = rgb_of(d1, d2, d3);
            let p1 = 6 + d1.len() as int;
            let p2 = p1 + 4 + d2.len() as int;
            &&& n.len() == 15 + d1.len() + d2.len() + d3.len()
            &&& n[0] == 82 && n[1] == 71 && n[2] == 66 && n[3] == 40
            &&& n[4] == 48 && n[5] == 46
            &&& (forall|i: int| 0 <= i < d1.len() ==> n[6 + i] == #[trigger] d1[i])
            &&& n[p1] == 44 && n[p1 + 1] == 32 && n[p1 + 2] == 48 && n[p1 + 3] == 46
            &&& (forall|i: int| 0 <= i < d2.len() ==> n[p1 + 4 + i] == #[trigger] d2[i])
            &&& n[p2] == 44 && n[p2 + 1] == 32 && n[p2 + 2] == 48 && n[p2 + 3] == 46
            &&& (forall|i: int| 0 <= i < d3.len() ==> n[p2 + 4 + i] == #[trigger] d3[i])
            &&& n[p2 + 4 + d3.len() as int] == 41
        }),
{
}

/// A run of digits ends exactly at the first non-digit: two end positions
/// with the same start agree.
proof fn lemma_digit_run_end_unique(s: Seq<u8>, start: int, a: int, b: int)
    requires
        start <= a <= s.len(),
        start <= b <= s.len(),
        forall|i: int| start <= i < a ==> is_digit_byte(#[trigger] s[i]),
        forall|i: int| start <= i < b ==> is_digit_byte(#[trigger] s[i]),
        a == s.len() || !is_digit_byte(s[a]),
        b == s.len() || !is_digit_byte(s[b]),
    ensures
        a == b,
{
    if a < b {
        assert(is_digit_byte(s[a]));
        assert(false);
    }
    if b < a {
        assert(is_digit_byte(s[b]));
        assert(false);
    }
}

/// In a payload `rgb_of(d1, d2, d3)`, a maximal digit run that starts where
/// `d1` starts ends where `d1` ends.
proof fn lemma_munch1(s: Seq<u8>, e1: int, d1: Seq<u8>, d2: Seq<u8>, d3: Seq<u8>)
    requires
        is_digit_run(d1),
        is_digit_run(d2),
        is_digit_run(d3),
        s == rgb_of(d1, d2, d3),
        6 <= e1 <= s.len(),
        forall|i: int| 6 <= i < e1 ==> is_digit_byte(#[trigger] s[i]),
        e1 == s.len() || !is_digit_byte(s[e1]),
    ensures
        e1 == 6 + d1.len(),
{
    lemma_rgb_of_shape(d1, d2, d3);
    assert forall|i: int| 6 <= i < 6 + d1.len() implies is_digit_byte(#[trigger] s[i]) by {
        assert(s[i] == d1[i - 6]);
    }
    assert(!is_digit_byte(s[6 + d1.len() as int]));
    lemma_digit_run_end_unique(s, 6, e1, 6 + d1.len() as int);
}

/// The same, for the second run: it ends where `d2` ends.
proof fn lemma_munch2(s: Seq<u8>, e1: int, e2: int, d1: Seq<u8>, d2: Seq<u8>, d3: Seq<u8>)
    requires
        is_digit_run(d1),
        is_digit_run(d2),
        is_digit_run(d3),
        s == rgb_of(d1, d2, d3),
        e1 == 6 + d1.len(),
        e1 + 4 <= e2 <= s.len(),
        forall|i: int| e1 + 4 <= i < e2 ==> is_digit_byte(#[trigger] s[i]),
        e2 == s.len() || !is_digit_byte(s[e2]),
    ensures
        e2 == e1 + 4 + d2.len(),
{
    lemma_rgb_of_shape(d1, d2, d3);
    assert forall|i: int| e1 + 4 <= i < e1 + 4 + d2.len() implies is_digit_byte(
        #[trigger] s[i],
    ) by {
        assert(s[i] == d2[i - (e1 + 4)]);
    }
    assert(!is_digit_byte(s[e1 + 4 + d2.len() as int]));
    lemma_digit_run_end_unique(s, e1 + 4, e2, e1 + 4 + d2.len() as int);
}

/// The same, for the third run: it ends where `d3` ends.
proof fn lemma_munch3(s: Seq<u8>, e2: int, e3: int, d1: Seq<u8>, d2: Seq<u8>, d3: Seq<u8>)
    requires
        is_digit_run(d1),
        is_digit_run(d2),
        is_digit_run(d3),
        s == rgb_of(d1, d2, d3),
        e2 == 10 + d1.len() + d2.len(),
        e2 + 4 <= e3 <= s.len(),
        forall|i: int| e2 + 4 <= i < e3 ==> is_digit_byte(#[trigger] s[i]),
        e3 == s.len() || !is_digit_byte(s[e3]),
    ensures
        e3 == e2 + 4 + d3.len(),
{
    lemma_rgb_of_shape(d1, d2, d3);
    assert forall|i: int| e2 + 4 <= i < e2 + 4 + d3.len() implies is_digit_byte(
        #[trigger] s[i],
    ) by {
        assert(s[i] == d3[i - (e2 + 4)]);
    }
    assert(!is_digit_byte(s[e2 + 4 + d3.len() as int]));
    lemma_digit_run_end_unique(s, e2 + 4, e3, e2 + 4 + d3.len() as int);
}

/// The decomposition of a payload into its three digit runs is unambiguous:
/// each run extends to the first non-digit after it, so one byte string is
/// `rgb_of` of at most one triple of runs.
pub proof fn lemma_rgb_of_unique(
    d1: Seq<u8>,
    d2: Seq<u8>,
    d3: Seq<u8>,
    e1: Seq<u8>,
    e2: Seq<u8>,
    e3: Seq<u8>,
)
    requires
        is_digit_run(d1),
        is_digit_run(d2),
        is_digit_run(d3),
        is_digit_run(e1),
        is_digit_run(e2),
        is_digit_run(e3),
        rgb_of(d1, d2, d3) == rgb_of(e1, e2, e3),
    ensures
        d1 == e1,
        d2 == e2,
        d3 == e3,
{
    let s = rgb_of(d1, d2, d3);
    lemma_rgb_of_shape(d1, d2, d3);
    lemma_rgb_of_shape(e1, e2, e3);
    assert forall|i: int| 6 <= i < 6 + d1.len() implies is_digit_byte(#[trigger] s[i]) by {
        assert(s[i] == d1[i - 6]);
    }
    lemma_munch1(s, 6 + d1.len() as int, e1, e2, e3);
    assert(d1 =~= e1) by {
        assert forall|i: int| 0 <= i < d1.len() implies d1[i] == e1[i] by {
            assert(d1[i] == s[6 + i]);
            assert(e1[i] == s[6 + i]);
        }
    }
    let q1 = 6 + d1.len() as int;
    assert forall|i: int| q1 + 4 <= i < q1 + 4 + d2.len() implies is_digit_byte(
        #[trigger] s[i],
    ) by {
        assert(s[i] == d2[i - (q1 + 4)]);
    }
    lemma_munch2(s, q1, q1 + 4 + d2.len() as int, e1, e2, e3);
    assert(d2 =~= e2) by {
        assert forall|i: int| 0 <= i < d2.len() implies d2[i] == e2[i] by {
            assert(d2[i] == s[q1 + 4 + i]);
            assert(e2[i] == s[q1 + 4 + i]);
        }
    }
    let q2 = q1 + 4 + d2.len() as int;
    assert forall|i: int| q2 + 4 <= i < q2 + 4 + d3.len() implies is_digit_byte(
        #[trigger] s[i],
    ) by {
        assert(s[i] == d3[i - (q2 + 4)]);
    }
    lemma_munch3(s, q2, q2 + 4 + d3.len() as int, e1, e2, e3);
    assert(d3 =~= e3) by {
        assert forall|i: int| 0 <= i < d3.len() implies d3[i] == e3[i] by {
            assert(d3[i] == s[q2 + 4 + i]);
            assert(e3[i] == s[q2 + 4 + i]);
        }
    }
}

/// The hundreds digit of a component, as an ASCII byte.
pub open spec fn digit_hundreds(c: u16) -> u8 {
    (48 + c / 100) as u8
}

/// The tens digit of a component, as an ASCII byte.
pub open spec fn digit_tens(c: u16) -> u8 {
    (48 + (c / 10) % 10) as u8
}

/// The ones digit of a component, as an ASCII byte.
pub open spec fn digit_ones(c: u16) -> u8 {
    (48 + c % 10) as u8
}

/// The canonical digit run of a component below the scale: exactly its three
/// digits, zero-padded.
pub open spec fn canonical_digits(c: u16) -> Seq<u8> {
    seq![digit_hundreds(c), digit_tens(c), digit_ones(c)]
}

/// The canonical wire form of one component: `0.` then its three digits.
pub open spec fn frac_bytes(c: u16) -> Seq<u8> {
    seq![48u8, 46u8, digit_hundreds(c), digit_tens(c), digit_ones(c)]
}

/// The canonical wire form of a whole payload: `RGB(` then the three
/// components, each with exactly three digits, separated by `, `, then `)`.
/// Always 24 bytes. This is what the renderer emits; the parser accepts any
/// digit count.
pub open spec fn rgb_bytes(r: u16, g: u16, b: u16) -> Seq<u8> {
    seq![82u8, 71u8, 66u8, 40u8] + frac_bytes(r) + seq![44u8, 32u8] + frac_bytes(g) + seq![
        44u8,
        32u8,
    ] + frac_bytes(b) + seq![41u8]
}

/// Where every byte of a canonical payload sits: the fixed punctuation, and
/// the digits of each component at their positions.
pub proof fn lemma_rgb_bytes_shape(r: u16, g: u16, b: u16)
    requires
        r < 1000,
        g < 1000,
        b < 1000,
    ensures
        rgb_bytes(r, g, b).len() == 24,
        rgb_bytes(r, g, b)[0] == 82,
        rgb_bytes(r, g, b)[1] == 71,
        rgb_bytes(r, g, b)[2] == 66,
        rgb_bytes(r, g, b)[3] == 40,
        rgb_bytes(r, g, b)[4] == 48,
        rgb_bytes(r, g, b)[5] == 46,
        rgb_bytes(r, g, b)[6] == digit_hundreds(r),
        rgb_bytes(r, g, b)[7] == digit_tens(r),
        rgb_bytes(r, g, b)[8] == digit_ones(r),
        rgb_bytes(r, g, b)[9] == 44,
        rgb_bytes(r, g, b)[10] == 32,
        rgb_bytes(r, g, b)[11] == 48,
        rgb_bytes(r, g, b)[12] == 46,
        rgb_bytes(r, g, b)[13] == digit_hundreds(g),
        rgb_bytes(r, g, b)[14] == digit_tens(g),
        rgb_bytes(r, g, b)[15] == digit_ones(g),
        rgb_bytes(r, g, b)[16] == 44,
        rgb_bytes(r, g, b)[17] == 32,
        rgb_bytes(r, g, b)[18] == 48,
        rgb_bytes(r, g, b)[19] == 46,
        rgb_bytes(r, g, b)[20] == digit_hundreds(b),
        rgb_bytes(r, g, b)[21] == digit_tens(b),
        rgb_bytes(r, g, b)[22] == digit_ones(b),
        rgb_bytes(r, g, b)[23] == 41,
{
    assert(rgb_bytes(r, g, b) =~= seq![
        82u8,
        71u8,
        66u8,
        40u8,
        48u8,
        46u8,
        digit_hundreds(r),
        digit_tens(r),
        digit_ones(r),
        44u8,
        32u8,
        48u8,
        46u8,
        digit_hundreds(g),
        digit_tens(g),
        digit_ones(g),
        44u8,
        32u8,
        48u8,
        46u8,
        digit_hundreds(b),
        digit_tens(b),
        digit_ones(b),
        41u8,
    ]);
}

/// The digit bytes of a component below the scale are ASCII digits.
pub proof fn lemma_digit_bytes_in_range(c: u16)
    requires
        c < 1000,
    ensures
        48 <= digit_hundreds(c) <= 57,
        48 <= digit_tens(c) <= 57,
        48 <= digit_ones(c) <= 57,
{
}

/// Distinct component triples render to distinct canonical payloads: the
/// wire form determines the components.
pub proof fn lemma_rgb_bytes_injective(r1: u16, g1: u16, b1: u16, r2: u16, g2: u16, b2: u16)
    requires
        r1 < 1000,
        g1 < 1000,
        b1 < 1000,
        r2 < 1000,
        g2 < 1000,
        b2 < 1000,
        rgb_bytes(r1, g1, b1) == rgb_bytes(r2, g2, b2),
    ensures
        r1 == r2,
        g1 == g2,
        b1 == b2,
{
    lemma_rgb_bytes_shape(r1, g1, b1);
    lemma_rgb_bytes_shape(r2, g2, b2);
    lemma_component_determined(r1, r2);
    lemma_component_determined(g1, g2);
    lemma_component_determined(b1, b2);
}

/// A component below the scale is determined by its three digit bytes.
proof fn lemma_component_determined(c1: u16, c2: u16)
    requires
        c1 < 1000,
        c2 < 1000,
        digit_hundreds(c1) == digit_hundreds(c2),
        digit_tens(c1) == digit_tens(c2),
        digit_ones(c1) == digit_ones(c2),
    ensures
        c1 == c2,
{
    lemma_component_of_digits(c1);
    lemma_component_of_digits(c2);
}

/// Fundamental decomposition: a component below the scale equals the value
/// spelled by its own digits.
proof fn lemma_component_of_digits(c: u16)
    requires
        c < 1000,
    ensures
        c == (c / 100) * 100 + ((c / 10) % 10) * 10 + c % 10,
{
    assert(c == (c / 100) * 100 + ((c / 10) % 10) * 10 + c % 10) by (nonlinear_arith)
        requires
            c < 1000,
    ;
}

/// A canonical payload is `rgb_of` of the components' canonical digit runs,
/// and each run spells exactly its component back.
pub proof fn lemma_rgb_bytes_canonical(r: u16, g: u16, b: u16)
    requires
        r < 1000,
        g < 1000,
        b < 1000,
    ensures
        rgb_bytes(r, g, b) == rgb_of(canonical_digits(r), canonical_digits(g), canonical_digits(b)),
        is_digit_run(canonical_digits(r)),
        is_digit_run(canonical_digits(g)),
        is_digit_run(canonical_digits(b)),
        thousandths_of(canonical_digits(r)) == r,
        thousandths_of(canonical_digits(g)) == g,
        thousandths_of(canonical_digits(b)) == b,
{
    lemma_digit_bytes_in_range(r);
    lemma_digit_bytes_in_range(g);
    lemma_digit_bytes_in_range(b);
    assert(rgb_bytes(r, g, b) =~= rgb_of(
        canonical_digits(r),
        canonical_digits(g),
        canonical_digits(b),
    ));
    lemma_component_of_digits(r);
    lemma_component_of_digits(g);
    lemma_component_of_digits(b);
}

/// Every canonical payload is a well-formed payload: what the renderer (and
/// so the publisher) emits, the parser accepts.
pub proof fn lemma_rgb_bytes_valid(r: u16, g: u16, b: u16)
    requires
        r < 1000,
        g < 1000,
        b < 1000,
    ensures
        valid_rgb(rgb_bytes(r, g, b)),
{
    lemma_rgb_bytes_canonical(r, g, b);
}

/// Render a payload: exactly the 24-byte canonical wire form of the three
/// components.
pub fn render_rgb(r: u16, g: u16, b: u16) -> (v: Vec<u8>)
    requires
        r < 1000,
        g < 1000,
        b < 1000,
    ensures
        v@ == rgb_bytes(r, g, b),
{
    let mut v: Vec<u8> = Vec::new();
    v.push(82);
    v.push(71);
    v.push(66);
    v.push(40);
    push_frac(&mut v, r);
    v.push(44);
    v.push(32);
    push_frac(&mut v, g);
    v.push(44);
    v.push(32);
    push_frac(&mut v, b);
    v.push(41);
    proof {
        assert(v@ =~= rgb_bytes(r, g, b));
    }
    v
}

/// Append the canonical wire form of one component.
fn push_frac(v: &mut Vec<u8>, c: u16)
    requires
        c < 1000,
    ensures
        final(v)@ == old(v)@ + frac_bytes(c),
{
    v.push(48);
    v.push(46);
    v.push(48 + (c / 100) as u8);
    v.push(48 + ((c / 10) % 10) as u8);
    v.push(48 + (c % 10) as u8);
    proof {
        assert(v@ =~= old(v)@ + frac_bytes(c));
    }
}

/// Every byte of a canonical payload is plain ASCII.
pub proof fn lemma_rgb_bytes_ascii(r: u16, g: u16, b: u16)
    requires
        r < 1000,
        g < 1000,
        b < 1000,
    ensures
        forall|i: int| 0 <= i < rgb_bytes(r, g, b).len() ==> rgb_bytes(r, g, b)[i] < 128,
{
    lemma_rgb_bytes_shape(r, g, b);
    lemma_digit_bytes_in_range(r);
    lemma_digit_bytes_in_range(g);
    lemma_digit_bytes_in_range(b);
    assert forall|i: int| 0 <= i < rgb_bytes(r, g, b).len() implies rgb_bytes(r, g, b)[i]
        < 128 by {
        assert(rgb_bytes(r, g, b).len() == 24);
    }
}

/// The characters spelled by a sequence of ASCII bytes, one per byte.
pub open spec fn ascii_chars(s: Seq<u8>) -> Seq<char> {
    Seq::new(s.len(), |i: int| s[i] as char)
}

/// Relies on `String::from_utf8`: ASCII bytes are valid UTF-8 and decode to
/// exactly one char per byte, each with the byte's code point. The error arm
/// is unreachable under the precondition.
#[verifier::external_body]
fn ascii_string(bytes: Vec<u8>) -> (r: String)
    requires
        forall|i: int| 0 <= i < bytes@.len() ==> bytes@[i] < 128,
    ensures
        r@ == ascii_chars(bytes@),
{
    match String::from_utf8(bytes) {
        Ok(s) => s,
        Err(_) => String::new(),
    }
}

/// Build the notification carrying the canonical rendered payload of the
/// three components as its color string.
pub fn notification_event(r: u16, g: u16, b: u16) -> (ev: crate::AddNotificationEvent)
    requires
        r < 1000,
        g < 1000,
        b < 1000,
    ensures
        ev.color@ == ascii_chars(rgb_bytes(r, g, b)),
{
    let bytes = render_rgb(r, g, b);
    proof {
        lemma_rgb_bytes_ascii(r, g, b);
    }
    let color = ascii_string(bytes);
    crate::AddNotificationEvent { color }
}

/// Scan one fractional component at `off`: `0.` then a maximal nonempty run
/// of digits. On success returns its value in thousandths (truncated) and the
/// position just past the run.
fn scan_frac(s: &[u8], off: usize) -> (r: Option<(u16, usize)>)
    requires
        off <= s@.len(),
    ensures
        r is Some ==> ({
            let (val, end) = r->Some_0;
            &&& off + 3 <= end <= s@.len()
            &&& s@[off as int] == 48
            &&& s@[off + 1] == 46
            &&& (forall|i: int| off + 2 <= i < end ==> is_digit_byte(#[trigger] s@[i]))
            &&& (end == s@.len() || !is_digit_byte(s@[end as int]))
            &&& val == thousandths_of(s@.subrange(off + 2, end as int))
            &&& val < 1000
        }),
        r is None ==> (off + 3 > s@.len() || s@[off as int] != 48 || s@[off + 1] != 46
            || !is_digit_byte(s@[off + 2])),
{
    if s.len() - off < 3 {
        return None;
    }
    if s[off] != 48 || s[off + 1] != 46 {
        return None;
    }
    if s[off + 2] < 48 || s[off + 2] > 57 {
        return None;
    }
    let mut end: usize = off + 3;
    let mut val: u16 = (s[off + 2] - 48) as u16 * 100;
    while end < s.len() && 48 <= s[end] && s[end] <= 57
        invariant
            off + 3 <= end <= s@.len(),
            forall|i: int| off + 2 <= i < end ==> is_digit_byte(#[trigger] s@[i]),
            val == digit_val(s@[off + 2]) * 100 + (if end >= off + 4 {
                digit_val(s@[off + 3]) * 10
            } else {
                0
            }) + (if end >= off + 5 {
                digit_val(s@[off + 4])
            } else {
                0
            }),
            val < 1000,
        decreases s@.len() - end,
    {
        if end == off + 3 {
            val = val + (s[end] - 48) as u16 * 10;
        } else if end == off + 4 {
            val = val + (s[end] - 48) as u16;
        }
        end = end + 1;
    }
    proof {
        let d = s@.subrange(off + 2, end as int);
        assert(d[0] == s@[off + 2]);
        if d.len() >= 2 {
            assert(d[1] == s@[off + 3]);
        }
        if d.len() >= 3 {
            assert(d[2] == s@[off + 4]);
        }
        assert(val == thousandths_of(d));
    }
    Some((val, end))
}

/// Parse a payload: succeeds exactly on the well-formed forms `RGB(a, b, c)`
/// with each component `0.` followed by one or more digits, returning the
/// components in thousandths, truncated past the third digit. Anything else
/// is rejected with the fixed reason `Invalid RGB format`.
#[verifier::rlimit(100)]
pub fn parse_rgb(s: &[u8]) -> (r: Result<(u16, u16, u16), String>)
    ensures
        r is Ok ==> ({
            let (cr, cg, cb) = r->Ok_0;
            &&& cr < 1000
            &&& cg < 1000
            &&& cb < 1000
            &&& exists|d1: Seq<u8>, d2: Seq<u8>, d3: Seq<u8>|
                {
                    &&& is_digit_run(d1)
                    &&& is_digit_run(d2)
                    &&& is_digit_run(d3)
                    &&& s@ == #[trigger] rgb_of(d1, d2, d3)
                    &&& cr == thousandths_of(d1)
                    &&& cg == thousandths_of(d2)
                    &&& cb == thousandths_of(d3)
                }
        }),
        r is Ok ==> valid_rgb(s@),
        r is Err ==> !valid_rgb(s@),
        r is Err ==> r->Err_0@ == "Invalid RGB format"@,
{
    if s.len() < 4 || s[0] != 82 || s[1] != 71 || s[2] != 66 || s[3] != 40 {
        proof {
            assert forall|d1: Seq<u8>, d2: Seq<u8>, d3: Seq<u8>|
                is_digit_run(d1) && is_digit_run(d2) && is_digit_run(d3) implies s@
                != #[trigger] rgb_of(d1, d2, d3) by {
                if s@ == rgb_of(d1, d2, d3) {
                    lemma_rgb_of_shape(d1, d2, d3);
                }
            }
        }
        return Err(invalid_reason());
    }
    let f1 = scan_frac(s, 4);
    if f1.is_none() {
        proof {
            assert forall|d1: Seq<u8>, d2: Seq<u8>, d3: Seq<u8>|
                is_digit_run(d1) && is_digit_run(d2) && is_digit_run(d3) implies s@
                != #[trigger] rgb_of(d1, d2, d3) by {
                if s@ == rgb_of(d1, d2, d3) {
                    lemma_rgb_of_shape(d1, d2, d3);
                    assert(is_digit_byte(d1[0]));
                    assert(s@[6] == d1[0]);
                }
            }
        }
        return Err(invalid_reason());
    }
    let (v1, e1) = f1.unwrap();
    if s.len() - e1 < 2 || s[e1] != 44 || s[e1 + 1] != 32 {
        proof {
            assert forall|d1: Seq<u8>, d2: Seq<u8>, d3: Seq<u8>|
                is_digit_run(d1) && is_digit_run(d2) && is_digit_run(d3) implies s@
                != #[trigger] rgb_of(d1, d2, d3) by {
                if s@ == rgb_of(d1, d2, d3) {
                    lemma_munch1(s@, e1 as int, d1, d2, d3);
                    lemma_rgb_of_shape(d1, d2, d3);
                }
            }
        }
        return Err(invalid_reason());
    }
    let f2 = scan_frac(s, e1 + 2);
    if f2.is_none() {
        proof {
            assert forall|d1: Seq<u8>, d2: Seq<u8>, d3: Seq<u8>|
                is_digit_run(d1) && is_digit_run(d2) && is_digit_run(d3) implies s@
                != #[trigger] rgb_of(d1, d2, d3) by {
                if s@ == rgb_of(d1, d2, d3) {
                    lemma_munch1(s@, e1 as int, d1, d2, d3);
                    lemma_rgb_of_shape(d1, d2, d3);
                    assert(is_digit_byte(d2[0]));
                    assert(s@[e1 + 4] == d2[0]);
                }
            }
        }
        return Err(invalid_reason());
    }
    let (v2, e2) = f2.unwrap();
    if s.len() - e2 < 2 || s[e2] != 44 || s[e2 + 1] != 32 {
        proof {
            assert forall|d1: Seq<u8>, d2: Seq<u8>, d3: Seq<u8>|
                is_digit_run(d1) && is_digit_run(d2) && is_digit_run(d3) implies s@
                != #[trigger] rgb_of(d1, d2, d3) by {
                if s@ == rgb_of(d1, d2, d3) {
                    lemma_munch1(s@, e1 as int, d1, d2, d3);
                    lemma_munch2(s@, e1 as int, e2 as int, d1, d2, d3);
                    lemma_rgb_of_shape(d1, d2, d3);
                }
            }
        }
        return Err(invalid_reason());
    }
    let f3 = scan_frac(s, e2 + 2);
    if f3.is_none() {
        proof {
            assert forall|d1: Seq<u8>, d2: Seq<u8>, d3: Seq<u8>|
                is_digit_run(d1) && is_digit_run(d2) && is_digit_run(d3) implies s@
                != #[trigger] rgb_of(d1, d2, d3) by {
                if s@ == rgb_of(d1, d2, d3) {
                    lemma_munch1(s@, e1 as int, d1, d2, d3);
                    lemma_munch2(s@, e1 as int, e2 as int, d1, d2, d3);
                    lemma_rgb_of_shape(d1, d2, d3);
                    assert(is_digit_byte(d3[0]));
                    assert(s@[e2 + 4] == d3[0]);
                }
            }
        }
        return Err(invalid_reason());
    }
    let (v3, e3) = f3.unwrap();
    if e3 != s.len() - 1 || s[e3] != 41 {
        proof {
            assert forall|d1: Seq<u8>, d2: Seq<u8>, d3: Seq<u8>|
                is_digit_run(d1) && is_digit_run(d2) && is_digit_run(d3) implies s@
                != #[trigger] rgb_of(d1, d2, d3) by {
                if s@ == rgb_of(d1, d2, d3) {
                    lemma_munch1(s@, e1 as int, d1, d2, d3);
                    lemma_munch2(s@, e1 as int, e2 as int, d1, d2, d3);
                    lemma_munch3(s@, e2 as int, e3 as int, d1, d2, d3);
                    lemma_rgb_of_shape(d1, d2, d3);
                }
            }
        }
        return Err(invalid_reason());
    }
    proof {
        let w1 = s@.subrange(6, e1 as int);
        let w2 = s@.subrange(e1 + 4, e2 as int);
        let w3 = s@.subrange(e2 + 4, e3 as int);
        assert(is_digit_run(w1));
        assert(is_digit_run(w2));
        assert(is_digit_run(w3));
        lemma_rgb_of_shape(w1, w2, w3);
        assert(rgb_of(w1, w2, w3).len() == s@.len());
        assert forall|i: int| 0 <= i < s@.len() implies rgb_of(w1, w2, w3)[i] == s@[i] by {
            let n = rgb_of(w1, w2, w3);
            if 6 <= i < e1 {
                assert(n[i] == w1[i - 6]);
            } else if e1 + 4 <= i < e2 {
                assert(n[i] == w2[i - (e1 + 4)]);
            } else if e2 + 4 <= i < e3 {
                assert(n[i] == w3[i - (e2 + 4)]);
            }
        }
        assert(s@ =~= rgb_of(w1, w2, w3));
    }
    Ok((v1, v2, v3))
}

/// The fixed human-readable reason a malformed payload is rejected with.
fn invalid_reason() -> (r: String)
    ensures
        r@ == "Invalid RGB format"@,
{
    "Invalid RGB format".to_owned()
}

} // verus!
