use vstd::prelude::*;

verus! {

/// Whether a decimal digit.
pub open spec fn is_digit(c: char) -> bool {
    c == '0' || c == '1' || c == '2' || c == '3' || c == '4' || c == '5' || c == '6' || c == '7'
        || c == '8' || c == '9'
}

/// The position after the literal `lit` when it occurs at `i`.
pub open spec fn spec_lit(s: Seq<char>, i: int, lit: Seq<char>) -> Option<int> {
    if 0 <= i && i + lit.len() <= s.len() && s.subrange(i, i + lit.len()) == lit {
        Some(i + lit.len())
    } else {
        None
    }
}

/// The end of the space run starting at `i`.
pub open spec fn spec_spaces(s: Seq<char>, i: int) -> int
    decreases s.len() - i,
{
    if 0 <= i < s.len() && s[i] == ' ' {
        spec_spaces(s, i + 1)
    } else {
        i
    }
}

/// The position after a newline followed by at least one space.
pub open spec fn spec_nl_spaces(s: Seq<char>, i: int) -> Option<int> {
    if 0 <= i < s.len() && s[i] == '\n' {
        let j = spec_spaces(s, i + 1);
        if j > i + 1 {
            Some(j)
        } else {
            None
        }
    } else {
        None
    }
}

/// The end of the digit run starting at `i`.
pub open spec fn spec_digits(s: Seq<char>, i: int) -> int
    decreases s.len() - i,
{
    if 0 <= i < s.len() && is_digit(s[i]) {
        spec_digits(s, i + 1)
    } else {
        i
    }
}

/// The position after a number (optional sign, digits, optional fraction).
pub open spec fn spec_number(s: Seq<char>, i: int) -> Option<int> {
    if i < 0 || i >= s.len() {
        None
    } else {
        let st = if s[i] == '+' || s[i] == '-' {
            i + 1
        } else {
            i
        };
        let d = spec_digits(s, st);
        if d == st {
            None
        } else {
            let dot = if d < s.len() && s[d] == '.' {
                d + 1
            } else {
                d
            };
            Some(spec_digits(s, dot))
        }
    }
}

/// One matched area block: where it ends and its four coordinate texts.
pub ghost struct AreaMatch {
    pub end: int,
    pub x1: Seq<char>,
    pub y1: Seq<char>,
    pub x2: Seq<char>,
    pub y2: Seq<char>,
}

/// The area block starting at `i`, if the text matches one there.
pub open spec fn spec_area_match(s: Seq<char>, i: int) -> Option<AreaMatch> {
    match spec_lit(s, i, "area: ("@) {
        None => None,
        Some(a) => match spec_nl_spaces(s, a) {
            None => None,
            Some(b) => match spec_lit(s, b, "min: ("@) {
                None => None,
                Some(c) => match spec_corner(s, c) {
                    None => None,
                    Some(cm) => match spec_lit(s, cm.end, "max: ("@) {
                        None => None,
                        Some(d) => match spec_corner(s, d) {
                            None => None,
                            Some(dm) => match spec_lit(s, dm.end, "),"@) {
                                None => None,
                                Some(end) => Some(
                                    AreaMatch { end, x1: cm.x, y1: cm.y, x2: dm.x, y2: dm.y },
                                ),
                            },
                        },
                    },
                },
            },
        },
    }
}

/// One matched corner: `<nl><sp>x: N,<nl><sp>y: N,<nl><sp>),<nl><sp>`
/// entered just after its opening parenthesis.
pub ghost struct CornerMatch {
    pub end: int,
    pub x: Seq<char>,
    pub y: Seq<char>,
}

pub open spec fn spec_corner(s: Seq<char>, i: int) -> Option<CornerMatch> {
    match spec_nl_spaces(s, i) {
        None => None,
        Some(a) => match spec_lit(s, a, "x: "@) {
            None => None,
            Some(b) => match spec_number(s, b) {
                None => None,
                Some(c) => match spec_lit(s, c, ","@) {
                    None => None,
                    Some(d) => match spec_nl_spaces(s, d) {
                        None => None,
                        Some(e) => match spec_lit(s, e, "y: "@) {
                            None => None,
                            Some(f) => match spec_number(s, f) {
                                None => None,
                                Some(g) => match spec_lit(s, g, ","@) {
                                    None => None,
                                    Some(h) => match spec_nl_spaces(s, h) {
                                        None => None,
                                        Some(j) => match spec_lit(s, j, "),"@) {
                                            None => None,
                                            Some(k) => match spec_nl_spaces(s, k) {
                                                None => None,
                                                Some(end) => Some(
                                                    CornerMatch {
                                                        end,
                                                        x: s.subrange(b, c),
                                                        y: s.subrange(f, g),
                                                    },
                                                ),
                                            },
                                        },
                                    },
                                },
                            },
                        },
                    },
                },
            },
        },
    }
}

/// The compact form an area block is rewritten to.
pub open spec fn spec_replacement(m: AreaMatch) -> Seq<char> {
    "area: (\n            min: ("@ + m.x1 + ", "@ + m.y1 + "),\n            max: ("@ + m.x2
        + ", "@ + m.y2 + "),\n          ),"@
}

/// The rewritten text from position `i` on: every area block becomes its
/// compact form, everything else is copied through.
pub open spec fn spec_reformat_from(s: Seq<char>, i: int) -> Seq<char>
    decreases s.len() - i,
{
    if i < 0 || i >= s.len() {
        Seq::empty()
    } else {
        match spec_area_match(s, i) {
            Some(m) => if i < m.end <= s.len() {
                spec_replacement(m) + spec_reformat_from(s, m.end)
            } else {
                seq![s[i]] + spec_reformat_from(s, i + 1)
            },
            None => seq![s[i]] + spec_reformat_from(s, i + 1),
        }
    }
}

/// The whole rewritten text.
pub open spec fn spec_reformat(s: Seq<char>) -> Seq<char> {
    spec_reformat_from(s, 0)
}

/// The characters of a string slice.
pub fn str_to_chars(s: &str) -> (r: Vec<char>)
    ensures
        r@ == s@,
{
    let n = s.unicode_len();
    let mut out: Vec<char> = Vec::new();
    let mut i: usize = 0;
    while i < n
        invariant
            i <= n,
            n == s@.len(),
            out@ == s@.subrange(0, i as int),
        decreases n - i,
    {
        out.push(s.get_char(i));
        proof {
            assert(s@.subrange(0, i as int).push(s@[i as int]) =~= s@.subrange(0, i as int + 1));
        }
        i += 1;
    }
    proof {
        assert(s@.subrange(0, s@.len() as int) =~= s@);
    }
    out
}

/// The position after `lit` when it occurs at `i` in `v`.
fn lit_at(v: &Vec<char>, i: usize, lit: &str) -> (r: Option<usize>)
    ensures
        match r {
            Some(j) => spec_lit(v@, i as int, lit@) == Some(j as int),
            None => spec_lit(v@, i as int, lit@) is None,
        },
{
    let m = lit.unicode_len();
    if i > v.len() || m > v.len() - i {
        return None;
    }
    let mut k: usize = 0;
    while k < m
        invariant
            k <= m,
            m == lit@.len(),
            i + m <= v@.len(),
            v@.len() <= usize::MAX,
            forall|q: int| 0 <= q < k ==> v@[i + q] == lit@[q],
        decreases m - k,
    {
        if v[i + k] != lit.get_char(k) {
            proof {
                assert(v@.subrange(i as int, i as int + lit@.len()) != lit@) by {
                    assert(v@.subrange(i as int, i as int + lit@.len())[k as int] != lit@[
                        k as int]);
                }
            }
            return None;
        }
        k += 1;
    }
    proof {
        assert(v@.subrange(i as int, i as int + lit@.len()) =~= lit@);
    }
    Some(i + m)
}

/// The end of the space run starting at `i`.
fn spaces_at(v: &Vec<char>, i: usize) -> (r: usize)
    requires
        i <= v@.len(),
    ensures
        r as int == spec_spaces(v@, i as int),
        i <= r <= v@.len(),
{
    let n = v.len();
    let mut j = i;
    while j < n && v[j] == ' '
        invariant
            i <= j <= n,
            n == v@.len(),
            spec_spaces(v@, i as int) == spec_spaces(v@, j as int),
        decreases n - j,
    {
        j += 1;
    }
    j
}

/// The position after a newline and its indentation, if any.
fn nl_spaces_at(v: &Vec<char>, i: usize) -> (r: Option<usize>)
    ensures
        match r {
            Some(j) => spec_nl_spaces(v@, i as int) == Some(j as int) && i < j <= v@.len(),
            None => spec_nl_spaces(v@, i as int) is None,
        },
{
    if i >= v.len() || v[i] != '\n' {
        return None;
    }
    let j = spaces_at(v, i + 1);
    if j > i + 1 {
        Some(j)
    } else {
        None
    }
}

/// The end of the digit run starting at `i`.
fn digits_at(v: &Vec<char>, i: usize) -> (r: usize)
    requires
        i <= v@.len(),
    ensures
        r as int == spec_digits(v@, i as int),
        i <= r <= v@.len(),
{
    let n = v.len();
    let mut j = i;
    while j < n && (v[j] == '0' || v[j] == '1' || v[j] == '2' || v[j] == '3' || v[j] == '4' || v[j]
        == '5' || v[j] == '6' || v[j] == '7' || v[j] == '8' || v[j] == '9')
        invariant
            i <= j <= n,
            n == v@.len(),
            spec_digits(v@, i as int) == spec_digits(v@, j as int),
        decreases n - j,
    {
        j += 1;
    }
    j
}

/// The position after a number starting at `i`, if one is there.
fn number_at(v: &Vec<char>, i: usize) -> (r: Option<usize>)
    ensures
        match r {
            Some(j) => spec_number(v@, i as int) == Some(j as int) && i < j <= v@.len(),
            None => spec_number(v@, i as int) is None,
        },
{
    if i >= v.len() {
        return None;
    }
    let st = if v[i] == '+' || v[i] == '-' {
        i + 1
    } else {
        i
    };
    let d = digits_at(v, st);
    if d == st {
        return None;
    }
    let dot = if d < v.len() && v[d] == '.' {
        d + 1
    } else {
        d
    };
    Some(digits_at(v, dot))
}

/// A copy of `v[a..b]`.
fn copy_range(v: &Vec<char>, a: usize, b: usize) -> (r: Vec<char>)
    requires
        a <= b <= v@.len(),
    ensures
        r@ == v@.subrange(a as int, b as int),
{
    let mut out: Vec<char> = Vec::new();
    let mut k = a;
    while k < b
        invariant
            a <= k <= b <= v@.len(),
            out@ == v@.subrange(a as int, k as int),
        decreases b - k,
    {
        out.push(v[k]);
        proof {
            assert(v@.subrange(a as int, k as int).push(v@[k as int]) =~= v@.subrange(
                a as int,
                k as int + 1,
            ));
        }
        k += 1;
    }
    out
}

/// One matched corner, as the executable matcher hands it back.
struct CornerParts {
    end: usize,
    x: Vec<char>,
    y: Vec<char>,
}

fn corner_at(v: &Vec<char>, i: usize) -> (r: Option<CornerParts>)
    ensures
        match r {
            Some(c) => spec_corner(v@, i as int) matches Some(m) && m.end == c.end as int && m.x
                == c.x@ && m.y == c.y@ && c.end <= v@.len(),
            None => spec_corner(v@, i as int) is None,
        },
{
    let a = match nl_spaces_at(v, i) {
        Some(a) => a,
        None => {
            return None;
        },
    };
    let b = match lit_at(v, a, "x: ") {
        Some(b) => b,
        None => {
            return None;
        },
    };
    let c = match number_at(v, b) {
        Some(c) => c,
        None => {
            return None;
        },
    };
    let d = match lit_at(v, c, ",") {
        Some(d) => d,
        None => {
            return None;
        },
    };
    let e = match nl_spaces_at(v, d) {
        Some(e) => e,
        None => {
            return None;
        },
    };
    let f = match lit_at(v, e, "y: ") {
        Some(f) => f,
        None => {
            return None;
        },
    };
    let g = match number_at(v, f) {
        Some(g) => g,
        None => {
            return None;
        },
    };
    let h = match lit_at(v, g, ",") {
        Some(h) => h,
        None => {
            return None;
        },
    };
    let j = match nl_spaces_at(v, h) {
        Some(j) => j,
        None => {
            return None;
        },
    };
    let k = match lit_at(v, j, "),") {
        Some(k) => k,
        None => {
            return None;
        },
    };
    let end = match nl_spaces_at(v, k) {
        Some(end) => end,
        None => {
            return None;
        },
    };
    let x = copy_range(v, b, c);
    let y = copy_range(v, f, g);
    Some(CornerParts { end, x, y })
}

/// One matched area block, as the executable matcher hands it back.
struct AreaParts {
    end: usize,
    x1: Vec<char>,
    y1: Vec<char>,
    x2: Vec<char>,
    y2: Vec<char>,
}

fn area_at(v: &Vec<char>, i: usize) -> (r: Option<AreaParts>)
    ensures
        match r {
            Some(p) => spec_area_match(v@, i as int) matches Some(m) && m.end == p.end as int
                && m.x1 == p.x1@ && m.y1 == p.y1@ && m.x2 == p.x2@ && m.y2 == p.y2@ && p.end
                <= v@.len(),
            None => spec_area_match(v@, i as int) is None,
        },
{
    let a = match lit_at(v, i, "area: (") {
        Some(a) => a,
        None => {
            return None;
        },
    };
    let b = match nl_spaces_at(v, a) {
        Some(b) => b,
        None => {
            return None;
        },
    };
    let c = match lit_at(v, b, "min: (") {
        Some(c) => c,
        None => {
            return None;
        },
    };
    let cm = match corner_at(v, c) {
        Some(cm) => cm,
        None => {
            return None;
        },
    };
    let d = match lit_at(v, cm.end, "max: (") {
        Some(d) => d,
        None => {
            return None;
        },
    };
    let dm = match corner_at(v, d) {
        Some(dm) => dm,
        None => {
            return None;
        },
    };
    let end = match lit_at(v, dm.end, "),") {
        Some(end) => end,
        None => {
            return None;
        },
    };
    Some(AreaParts { end, x1: cm.x, y1: cm.y, x2: dm.x, y2: dm.y })
}

/// Appends the characters of `lit`.
fn push_lit(out: &mut Vec<char>, lit: &str)
    ensures
        final(out)@ == old(out)@ + lit@,
{
    let m = lit.unicode_len();
    let mut k: usize = 0;
    while k < m
        invariant
            k <= m,
            m == lit@.len(),
            out@ == old(out)@ + lit@.subrange(0, k as int),
        decreases m - k,
    {
        out.push(lit.get_char(k));
        proof {
            assert(old(out)@ + lit@.subrange(0, k as int + 1) =~= (old(out)@ + lit@.subrange(
                0,
                k as int,
            )).push(lit@[k as int]));
        }
        k += 1;
    }
    proof {
        assert(lit@.subrange(0, lit@.len() as int) =~= lit@);
    }
}

/// Rewrites every orthographic-projection area block of a serialized scene
/// to its compact form, leaving all other text untouched, as the editor
/// does before the scene file is written. A block spells each corner
/// coordinate on its own indented line:
/// `area: (<nl><sp>min: (<nl><sp>x: N,<nl><sp>y: N,<nl><sp>),<nl><sp>max: (
/// ... ),<nl><sp>),`, where `<nl><sp>` is a newline with at least one space
/// of indentation and `N` a decimal number with optional sign and fraction.
pub fn reformat_projection_areas(v: &Vec<char>) -> (r: Vec<char>)
    ensures
        r@ == spec_reformat(v@),
{
    let n = v.len();
    let mut out: Vec<char> = Vec::new();
    let mut i: usize = 0;
    while i < n
        invariant
            i <= n,
            n == v@.len(),
            spec_reformat(v@) == out@ + spec_reformat_from(v@, i as int),
        decreases n - i,
    {
        let ghost out0 = out@;
        let mut advanced = false;
        match area_at(v, i) {
            Some(parts) => {
                if parts.end > i {
                    let mut x1 = parts.x1;
                    let mut y1 = parts.y1;
                    let mut x2 = parts.x2;
                    let mut y2 = parts.y2;
                    push_lit(&mut out, "area: (\n            min: (");
                    out.append(&mut x1);
                    push_lit(&mut out, ", ");
                    out.append(&mut y1);
                    push_lit(&mut out, "),\n            max: (");
                    out.append(&mut x2);
                    push_lit(&mut out, ", ");
                    out.append(&mut y2);
                    push_lit(&mut out, "),\n          ),");
                    proof {
                        let m = spec_area_match(v@, i as int)->0;
                        assert(out@ =~= out0 + spec_replacement(m));
                        assert(spec_reformat_from(v@, i as int) == spec_replacement(m)
                            + spec_reformat_from(v@, m.end));
                        assert(out0 + spec_reformat_from(v@, i as int) =~= out@
                            + spec_reformat_from(v@, m.end));
                    }
                    i = parts.end;
                    advanced = true;
                }
            },
            None => {},
        }
        if !advanced {
            out.push(v[i]);
            proof {
                assert(spec_reformat_from(v@, i as int) == seq![v@[i as int]]
                    + spec_reformat_from(v@, i as int + 1));
                assert(out0 + spec_reformat_from(v@, i as int) =~= out@ + spec_reformat_from(
                    v@,
                    i as int + 1,
                ));
            }
            i += 1;
        }
    }
    proof {
        assert(spec_reformat_from(v@, i as int) == Seq::<char>::empty());
        assert(out@ + Seq::<char>::empty() =~= out@);
    }
    out
}

} // verus!
