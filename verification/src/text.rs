//! Character-level text helpers: ASCII case folding, prefix tests, and the
//! UTF-16 encoding and lossy decoding used for Windows wide strings.
use vstd::prelude::*;

verus! {

/// `String::push`: appends one character.
#[verifier::external_body]
pub(crate) fn push_char(s: &mut String, c: char)
    ensures
        final(s)@ == old(s)@.push(c),
{
    s.push(c);
}

/// The characters of `s`, in order.
pub fn chars_of(s: &str) -> (v: Vec<char>)
    ensures
        v@ == s@,
{
    let mut v: Vec<char> = Vec::new();
    for c in it: s.chars()
        invariant
            it.seq() == s@,
            v@ == s@.take(it.index()),
    {
        v.push(c);
    }
    v
}

/// The code point of each character.
pub open spec fn codes_of(s: Seq<char>) -> Seq<u32> {
    s.map_values(|c: char| c as u32)
}

/// ASCII lowercase folding of a code point: 'A'..='Z' map to 'a'..='z',
/// everything else is unchanged.
pub open spec fn ascii_fold(c: u32) -> int {
    if 65 <= c <= 90 {
        c + 32
    } else {
        c as int
    }
}

/// Equality of two code point sequences ignoring ASCII case.
pub open spec fn ascii_ci_eq(a: Seq<u32>, b: Seq<u32>) -> bool {
    a.len() == b.len() && forall|i: int| 0 <= i < a.len() ==> ascii_fold(#[trigger] a[i]) == ascii_fold(b[i])
}

/// The code points of `s`, in order.
pub fn codes_of_str(s: &str) -> (v: Vec<u32>)
    ensures
        v@ == codes_of(s@),
{
    let cs = chars_of(s);
    let mut v: Vec<u32> = Vec::new();
    let mut i: usize = 0;
    while i < cs.len()
        invariant
            cs@ == s@,
            i <= cs@.len(),
            v@.len() == i,
            v@ == codes_of(s@).take(i as int),
        decreases cs.len() - i,
    {
        v.push(cs[i] as u32);
        i = i + 1;
        assert(v@ =~= codes_of(s@).take(i as int));
    }
    assert(v@ =~= codes_of(s@));
    v
}

fn fold_code(c: u32) -> (r: u32)
    ensures
        r as int == ascii_fold(c),
{
    if 65 <= c && c <= 90 {
        c + 32
    } else {
        c
    }
}

/// Equality of two code point vectors ignoring ASCII case.
pub fn codes_eq_ignore_ascii_case(a: &Vec<u32>, b: &Vec<u32>) -> (r: bool)
    ensures
        r == ascii_ci_eq(a@, b@),
{
    let ghost sa = a@;
    let ghost sb = b@;
    if a.len() != b.len() {
        return false;
    }
    let mut i: usize = 0;
    while i < a.len()
        invariant
            a@.len() == b@.len(),
            i <= a@.len(),
            sa == a@,
            sb == b@,
            forall|j: int| 0 <= j < i ==> ascii_fold(#[trigger] sa[j]) == ascii_fold(sb[j]),
        decreases a.len() - i,
    {
        if fold_code(a[i]) != fold_code(b[i]) {
            assert(ascii_fold(sa[i as int]) != ascii_fold(sb[i as int]));
            return false;
        }
        i = i + 1;
    }
    true
}

/// `a` and `b` are equal ignoring ASCII case (`str::eq_ignore_ascii_case`).
pub fn eq_ignore_ascii_case(a: &str, b: &str) -> (r: bool)
    ensures
        r == ascii_ci_eq(codes_of(a@), codes_of(b@)),
{
    let ca = codes_of_str(a);
    let cb = codes_of_str(b);
    codes_eq_ignore_ascii_case(&ca, &cb)
}

/// `a` and `b` hold the same characters.
pub fn text_eq(a: &str, b: &str) -> (r: bool)
    ensures
        r == (a@ == b@),
{
    let ca = chars_of(a);
    let cb = chars_of(b);
    if ca.len() != cb.len() {
        return false;
    }
    let mut i: usize = 0;
    while i < ca.len()
        invariant
            ca@ == a@,
            cb@ == b@,
            ca@.len() == cb@.len(),
            i <= ca@.len(),
            forall|j: int| 0 <= j < i ==> ca@[j] == cb@[j],
        decreases ca.len() - i,
    {
        if ca[i] != cb[i] {
            return false;
        }
        i = i + 1;
    }
    assert(ca@ =~= cb@);
    true
}

/// `prefix` is a prefix of `s` (`str::starts_with` with a string pattern).
pub fn starts_with(s: &str, prefix: &str) -> (r: bool)
    ensures
        r == prefix@.is_prefix_of(s@),
{
    let cs = chars_of(s);
    let cp = chars_of(prefix);
    if cp.len() > cs.len() {
        return false;
    }
    let mut i: usize = 0;
    while i < cp.len()
        invariant
            cs@ == s@,
            cp@ == prefix@,
            cp@.len() <= cs@.len(),
            i <= cp@.len(),
            forall|j: int| 0 <= j < i ==> cp@[j] == cs@[j],
        decreases cp.len() - i,
    {
        if cp[i] != cs[i] {
            return false;
        }
        i = i + 1;
    }
    true
}

pub open spec fn is_high_surrogate(u: u16) -> bool {
    0xD800 <= u <= 0xDBFF
}

pub open spec fn is_low_surrogate(u: u16) -> bool {
    0xDC00 <= u <= 0xDFFF
}

/// The code point that a surrogate pair encodes.
pub open spec fn surrogate_pair_code(hi: u16, lo: u16) -> u32 {
    (0x10000 + (hi - 0xD800) * 1024 + (lo - 0xDC00)) as u32
}

/// Lossy UTF-16 decoding as code points (`String::from_utf16_lossy`): a
/// valid surrogate pair decodes to one code point, any other surrogate to
/// U+FFFD, and every other unit to itself.
pub open spec fn utf16_lossy_codes(u: Seq<u16>) -> Seq<u32>
    decreases u.len(),
{
    if u.len() == 0 {
        seq![]
    } else if u.len() >= 2 && is_high_surrogate(u[0]) && is_low_surrogate(u[1]) {
        seq![surrogate_pair_code(u[0], u[1])] + utf16_lossy_codes(
            u.subrange(2, u.len() as int),
        )
    } else if 0xD800 <= u[0] <= 0xDFFF {
        seq![0xFFFDu32] + utf16_lossy_codes(u.subrange(1, u.len() as int))
    } else {
        seq![u[0] as u32] + utf16_lossy_codes(u.subrange(1, u.len() as int))
    }
}

/// Lossy UTF-16 decoding of `units` into code points.
pub fn decode_utf16_lossy(units: &[u16]) -> (v: Vec<u32>)
    ensures
        v@ == utf16_lossy_codes(units@),
{
    let n = units.len();
    let ghost u = units@;
    let mut v: Vec<u32> = Vec::new();
    let mut i: usize = 0;
    assert(u.subrange(0, n as int) =~= u);
    assert(v@ + utf16_lossy_codes(u) =~= utf16_lossy_codes(u));
    while i < n
        invariant
            n == u.len(),
            u == units@,
            i <= n,
            v@ + utf16_lossy_codes(u.subrange(i as int, n as int)) == utf16_lossy_codes(u),
        decreases n - i,
    {
        let ghost rest = u.subrange(i as int, n as int);
        let ghost before = v@;
        let a = units[i];
        if i + 1 < n && 0xD800 <= a && a <= 0xDBFF && 0xDC00 <= units[i + 1] && units[i + 1]
            <= 0xDFFF {
            let b = units[i + 1];
            let code: u32 = 0x10000 + ((a - 0xD800) as u32) * 1024 + ((b - 0xDC00) as u32);
            v.push(code);
            proof {
                assert(rest.subrange(2, rest.len() as int) =~= u.subrange(i + 2, n as int));
                assert(v@ =~= before + seq![surrogate_pair_code(a, b)]);
            }
            i = i + 2;
        } else if 0xD800 <= a && a <= 0xDFFF {
            v.push(0xFFFD);
            proof {
                assert(rest.subrange(1, rest.len() as int) =~= u.subrange(i + 1, n as int));
                assert(v@ =~= before + seq![0xFFFDu32]);
            }
            i = i + 1;
        } else {
            v.push(a as u32);
            proof {
                assert(rest.subrange(1, rest.len() as int) =~= u.subrange(i + 1, n as int));
                assert(v@ =~= before + seq![a as u32]);
            }
            i = i + 1;
        }
    }
    assert(u.subrange(n as int, n as int) =~= Seq::<u16>::empty());
    v
}

/// The units before the first NUL, or all of them when there is none.
pub open spec fn until_nul(u: Seq<u16>) -> Seq<u16>
    decreases u.len(),
{
    if u.len() == 0 {
        u
    } else if u[0] == 0 {
        seq![]
    } else {
        seq![u[0]] + until_nul(u.subrange(1, u.len() as int))
    }
}

/// The position of the first NUL unit, or the length when there is none.
pub fn nul_position(buf: &[u16]) -> (r: usize)
    ensures
        r <= buf@.len(),
        buf@.subrange(0, r as int) == until_nul(buf@),
{
    let n = buf.len();
    let ghost u = buf@;
    let mut i: usize = 0;
    assert(u.subrange(0, n as int) =~= u);
    assert(u.subrange(0, 0) + until_nul(u) =~= until_nul(u));
    while i < n
        invariant
            n == u.len(),
            u == buf@,
            i <= n,
            u.subrange(0, i as int) + until_nul(u.subrange(i as int, n as int)) == until_nul(u),
        decreases n - i,
    {
        let ghost rest = u.subrange(i as int, n as int);
        if buf[i] == 0 {
            assert(until_nul(rest) =~= Seq::<u16>::empty());
            assert(u.subrange(0, i as int) + Seq::<u16>::empty() =~= u.subrange(0, i as int));
            return i;
        }
        proof {
            assert(rest.subrange(1, rest.len() as int) =~= u.subrange(i + 1, n as int));
            assert(u.subrange(0, i + 1) =~= u.subrange(0, i as int) + seq![u[i as int]]);
        }
        i = i + 1;
    }
    assert(u.subrange(n as int, n as int) =~= Seq::<u16>::empty());
    assert(u.subrange(0, n as int) + Seq::<u16>::empty() =~= u.subrange(0, n as int));
    i
}

/// The NUL-terminated wide string in `buf` names `target`, ignoring ASCII
/// case. Units up to the first NUL (or all units) are decoded lossily.
pub fn exe_name_matches(buf: &[u16], target: &str) -> (r: bool)
    ensures
        r == ascii_ci_eq(utf16_lossy_codes(until_nul(buf@)), codes_of(target@)),
{
    let len = nul_position(buf);
    let name = decode_utf16_lossy(slice_prefix(buf, len));
    let t = codes_of_str(target);
    codes_eq_ignore_ascii_case(&name, &t)
}

/// The first `n` elements of `s`.
fn slice_prefix(s: &[u16], n: usize) -> (r: &[u16])
    requires
        n <= s@.len(),
    ensures
        r@ == s@.subrange(0, n as int),
{
    &s[0..n]
}

pub open spec fn is_path_separator(c: u32) -> bool {
    c == 0x5C || c == 0x2F
}

/// The code points after the last path separator ('\\' or '/'), or all of
/// them when there is no separator.
pub open spec fn file_name_codes(s: Seq<u32>) -> Seq<u32>
    decreases s.len(),
{
    if s.len() == 0 {
        s
    } else if is_path_separator(s.last()) {
        seq![]
    } else {
        file_name_codes(s.drop_last()).push(s.last())
    }
}

/// The file name in the wide path `units` is `target`, ignoring ASCII case.
/// The path is decoded lossily and split at its last '\\' or '/'.
pub fn image_name_is(units: &[u16], target: &str) -> (r: bool)
    ensures
        r == ascii_ci_eq(file_name_codes(utf16_lossy_codes(units@)), codes_of(target@)),
{
    let codes = decode_utf16_lossy(units);
    let ghost cs = codes@;
    let mut start: usize = 0;
    let mut i: usize = 0;
    while i < codes.len()
        invariant
            cs == codes@,
            start <= i <= codes@.len(),
            file_name_codes(cs.take(i as int)) == cs.subrange(start as int, i as int),
        decreases codes.len() - i,
    {
        proof {
            assert(cs.take(i + 1).drop_last() =~= cs.take(i as int));
            assert(cs.take(i + 1).last() == cs[i as int]);
        }
        if codes[i] == 0x5C || codes[i] == 0x2F {
            start = i + 1;
            proof {
                assert(cs.subrange(start as int, i + 1) =~= Seq::<u32>::empty());
            }
        } else {
            proof {
                assert(cs.subrange(start as int, i + 1) =~= cs.subrange(start as int, i as int).push(
                    cs[i as int],
                ));
            }
        }
        i = i + 1;
    }
    assert(cs.take(codes@.len() as int) =~= cs);
    let mut name: Vec<u32> = Vec::new();
    let mut k: usize = start;
    while k < codes.len()
        invariant
            cs == codes@,
            start <= k <= codes@.len(),
            name@ =~= cs.subrange(start as int, k as int),
        decreases codes.len() - k,
    {
        name.push(codes[k]);
        proof {
            assert(cs.subrange(start as int, k + 1) =~= cs.subrange(start as int, k as int).push(
                cs[k as int],
            ));
        }
        k = k + 1;
    }
    let t = codes_of_str(target);
    codes_eq_ignore_ascii_case(&name, &t)
}

/// UTF-16 units of one character.
pub open spec fn utf16_of_code(c: u32) -> Seq<u16> {
    if c < 0x10000 {
        seq![c as u16]
    } else {
        seq![(0xD800 + (c - 0x10000) / 1024) as u16, (0xDC00 + (c - 0x10000) % 1024) as u16]
    }
}

/// UTF-16 encoding of a character sequence.
pub open spec fn utf16_encode(s: Seq<char>) -> Seq<u16>
    decreases s.len(),
{
    if s.len() == 0 {
        seq![]
    } else {
        utf16_encode(s.drop_last()) + utf16_of_code(s.last() as u32)
    }
}

/// `value` as UTF-16 followed by a terminating NUL, as Win32 wide-string
/// APIs expect.
pub fn encode_wide_null(value: &str) -> (r: Vec<u16>)
    ensures
        r@ == utf16_encode(value@).push(0u16),
{
    let cs = chars_of(value);
    let mut out: Vec<u16> = Vec::new();
    let mut i: usize = 0;
    while i < cs.len()
        invariant
            cs@ == value@,
            i <= cs@.len(),
            out@ == utf16_encode(value@.take(i as int)),
        decreases cs.len() - i,
    {
        let c = cs[i] as u32;
        let ghost before = out@;
        if c < 0x10000 {
            out.push(c as u16);
        } else {
            let w = c - 0x10000;
            out.push((0xD800 + w / 1024) as u16);
            out.push((0xDC00 + w % 1024) as u16);
        }
        proof {
            assert(value@.take(i + 1).drop_last() =~= value@.take(i as int));
            assert(out@ =~= before + utf16_of_code(cs@[i as int] as u32));
        }
        i = i + 1;
    }
    assert(value@.take(cs@.len() as int) =~= value@);
    out.push(0);
    out
}

/// Comparing without ASCII case: the ASCII capitals `A`..`Z` match their
/// lowercase letters, every other code point matches only itself, and the
/// comparison is an equivalence.
pub proof fn lemma_ascii_ci_eq(a: Seq<u32>, b: Seq<u32>, c: Seq<u32>, x: u32, y: u32)
    ensures
        ascii_ci_eq(a, a),
        ascii_ci_eq(a, b) ==> ascii_ci_eq(b, a),
        ascii_ci_eq(a, b) && ascii_ci_eq(b, c) ==> ascii_ci_eq(a, c),
        ascii_ci_eq(a, b) ==> a.len() == b.len(),
        65 <= x <= 90 ==> ascii_ci_eq(seq![x], seq![(x + 32) as u32]),
        !(65 <= x <= 90) && !(65 <= y <= 90) && x != y ==> !ascii_ci_eq(seq![x], seq![y]),
        (97 <= x <= 122 || 97 <= y <= 122) && x != y && ascii_ci_eq(seq![x], seq![y]) ==> (x
            + 32 == y || y + 32 == x),
{
    if !(65 <= x <= 90) && !(65 <= y <= 90) && x != y {
        assert(seq![x][0] == x && seq![y][0] == y);
    }
    if (97 <= x <= 122 || 97 <= y <= 122) && x != y && ascii_ci_eq(seq![x], seq![y]) {
        assert(seq![x][0] == x && seq![y][0] == y);
        assert(ascii_fold(x) == ascii_fold(y));
    }
}

/// The file name of a path is the part after its last separator: a suffix
/// of the path with no separator in it, preceded by a separator unless it
/// is the whole path.
pub proof fn lemma_file_name(s: Seq<u32>)
    ensures
        ({
            let f = file_name_codes(s);
            let n = s.len() - f.len();
            &&& f.len() <= s.len()
            &&& f == s.subrange(n, s.len() as int)
            &&& forall|k: int| 0 <= k < f.len() ==> !is_path_separator(#[trigger] f[k])
            &&& n > 0 ==> is_path_separator(s[n - 1])
        }),
    decreases s.len(),
{
    if s.len() > 0 {
        let p = s.drop_last();
        lemma_file_name(p);
        if !is_path_separator(s.last()) {
            let f = file_name_codes(s);
            let fp = file_name_codes(p);
            assert(f == fp.push(s.last()));
            let n = p.len() - fp.len();
            assert(f =~= s.subrange(n, s.len() as int));
            assert forall|k: int| 0 <= k < f.len() implies !is_path_separator(#[trigger] f[k]) by {
                if k < fp.len() {
                    assert(f[k] == fp[k]);
                }
            }
            if n > 0 {
                assert(s[n - 1] == p[n - 1]);
            }
        } else {
            assert(s.subrange(s.len() as int, s.len() as int) =~= Seq::<u32>::empty());
        }
    } else {
        assert(s.subrange(0, 0) =~= s);
    }
}

/// The units before the first NUL are a prefix without NUL, followed by a
/// NUL unless they are everything.
pub proof fn lemma_until_nul(u: Seq<u16>)
    ensures
        until_nul(u).len() <= u.len(),
        until_nul(u) == u.subrange(0, until_nul(u).len() as int),
        forall|k: int| 0 <= k < until_nul(u).len() ==> #[trigger] until_nul(u)[k] != 0,
        until_nul(u).len() < u.len() ==> u[until_nul(u).len() as int] == 0,
    decreases u.len(),
{
    if u.len() > 0 && u[0] != 0 {
        let rest = u.subrange(1, u.len() as int);
        lemma_until_nul(rest);
        let t = until_nul(u);
        let tr = until_nul(rest);
        assert(t == seq![u[0]] + tr);
        assert(t =~= u.subrange(0, t.len() as int)) by {
            assert forall|k: int| 0 <= k < t.len() implies t[k] == u[k] by {
                if k > 0 {
                    assert(t[k] == tr[k - 1]);
                    assert(tr[k - 1] == rest[k - 1]);
                }
            }
        }
        assert forall|k: int| 0 <= k < t.len() implies #[trigger] t[k] != 0 by {
            if k > 0 {
                assert(t[k] == tr[k - 1]);
            }
        }
        if t.len() < u.len() {
            assert(u[t.len() as int] == rest[tr.len() as int]);
        }
    } else if u.len() > 0 {
        assert(u.subrange(0, 0) =~= until_nul(u));
    } else {
        assert(u.subrange(0, 0) =~= u);
    }
}

/// Lossy decoding keeps every unit that is not a surrogate as that code
/// point and never produces a surrogate.
pub proof fn lemma_utf16_lossy_bmp(u: Seq<u16>)
    requires
        forall|k: int| 0 <= k < u.len() ==> !(0xD800 <= #[trigger] u[k] <= 0xDFFF),
    ensures
        utf16_lossy_codes(u) == u.map_values(|x: u16| x as u32),
    decreases u.len(),
{
    if u.len() > 0 {
        let rest = u.subrange(1, u.len() as int);
        assert forall|k: int| 0 <= k < rest.len() implies !(0xD800 <= #[trigger] rest[k] <= 0xDFFF) by {
            assert(rest[k] == u[k + 1]);
        }
        lemma_utf16_lossy_bmp(rest);
        assert(utf16_lossy_codes(u) =~= u.map_values(|x: u16| x as u32));
    } else {
        assert(utf16_lossy_codes(u) =~= u.map_values(|x: u16| x as u32));
    }
}

} // verus!
