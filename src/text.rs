//! Character-level helpers on strings, each stated over `Seq<char>`.
use vstd::prelude::*;

verus! {

/// The character that writes the decimal digit `d`.
pub open spec fn digit_char(d: int) -> char {
    if d == 0 {
        '0'
    } else if d == 1 {
        '1'
    } else if d == 2 {
        '2'
    } else if d == 3 {
        '3'
    } else if d == 4 {
        '4'
    } else if d == 5 {
        '5'
    } else if d == 6 {
        '6'
    } else if d == 7 {
        '7'
    } else if d == 8 {
        '8'
    } else {
        '9'
    }
}

/// The decimal writing of `n`, without leading zeros.
pub open spec fn decimal(n: nat) -> Seq<char>
    decreases n,
{
    if n < 10 {
        seq![digit_char(n as int)]
    } else {
        decimal(n / 10).push(digit_char((n % 10) as int))
    }
}

/// The decimal writing of a signed integer, with a leading `-` when negative.
pub open spec fn signed_decimal(i: int) -> Seq<char> {
    if i < 0 {
        seq!['-'] + decimal((-i) as nat)
    } else {
        decimal(i as nat)
    }
}

/// Whether `s` begins with `p`.
pub open spec fn has_prefix(s: Seq<char>, p: Seq<char>) -> bool {
    p.len() <= s.len() && s.subrange(0, p.len() as int) == p
}

/// Whether `s` ends with `p`.
pub open spec fn has_suffix(s: Seq<char>, p: Seq<char>) -> bool {
    p.len() <= s.len() && s.subrange(s.len() - p.len(), s.len() as int) == p
}

/// The pieces of `parts` written one after another, with `sep` between two neighbours.
pub open spec fn join_with(parts: Seq<Seq<char>>, sep: char) -> Seq<char>
    decreases parts.len(),
{
    if parts.len() == 0 {
        Seq::empty()
    } else if parts.len() == 1 {
        parts[0]
    } else {
        join_with(parts.drop_last(), sep).push(sep) + parts.last()
    }
}

/// The views of a sequence of strings.
pub open spec fn views(v: Seq<String>) -> Seq<Seq<char>> {
    v.map_values(|s: String| s@)
}

fn digit_text(d: u64) -> (r: &'static str)
    requires
        d < 10,
    ensures
        r@ == seq![digit_char(d as int)],
{
    proof {
        reveal_strlit("0");
        reveal_strlit("1");
        reveal_strlit("2");
        reveal_strlit("3");
        reveal_strlit("4");
        reveal_strlit("5");
        reveal_strlit("6");
        reveal_strlit("7");
        reveal_strlit("8");
        reveal_strlit("9");
    }
    let r = if d == 0 {
        "0"
    } else if d == 1 {
        "1"
    } else if d == 2 {
        "2"
    } else if d == 3 {
        "3"
    } else if d == 4 {
        "4"
    } else if d == 5 {
        "5"
    } else if d == 6 {
        "6"
    } else if d == 7 {
        "7"
    } else if d == 8 {
        "8"
    } else {
        "9"
    };
    assert(r@ =~= seq![digit_char(d as int)]);
    r
}

/// Writes `n` in decimal.
pub fn decimal_string(n: u64) -> (r: String)
    ensures
        r@ == decimal(n as nat),
    decreases n,
{
    if n < 10 {
        String::from_str(digit_text(n))
    } else {
        let mut s = decimal_string(n / 10);
        s.append(digit_text(n % 10));
        s
    }
}

/// Writes a signed integer in decimal, as `i64`'s `to_string` does.
pub fn signed_decimal_string(i: i64) -> (r: String)
    ensures
        r@ == signed_decimal(i as int),
{
    if i < 0 {
        let magnitude: u64 = (0i128 - i as i128) as u64;
        let mut s = String::from_str("-");
        proof {
            reveal_strlit("-");
        }
        let digits = decimal_string(magnitude);
        s.append(digits.as_str());
        assert(s@ =~= seq!['-'] + decimal((-i) as nat));
        s
    } else {
        decimal_string(i as u64)
    }
}

/// Whether `s` begins with `p`.
pub fn starts_with(s: &str, p: &str) -> (r: bool)
    ensures
        r == has_prefix(s@, p@),
{
    let n = p.unicode_len();
    let m = s.unicode_len();
    if n > m {
        return false;
    }
    let mut i: usize = 0;
    while i < n
        invariant
            n == p@.len(),
            m == s@.len(),
            n <= m,
            i <= n,
            forall|j: int| 0 <= j < i ==> s@[j] == p@[j],
        decreases n - i,
    {
        if s.get_char(i) != p.get_char(i) {
            assert(s@.subrange(0, n as int)[i as int] != p@[i as int]);
            return false;
        }
        i += 1;
    }
    assert(s@.subrange(0, n as int) =~= p@);
    true
}

/// Whether `s` ends with `p`.
pub fn ends_with(s: &str, p: &str) -> (r: bool)
    ensures
        r == has_suffix(s@, p@),
{
    let n = p.unicode_len();
    let m = s.unicode_len();
    if n > m {
        return false;
    }
    let start = m - n;
    let mut i: usize = 0;
    while i < n
        invariant
            n == p@.len(),
            m == s@.len(),
            start == m - n,
            i <= n,
            forall|j: int| 0 <= j < i ==> s@[start + j] == p@[j],
        decreases n - i,
    {
        if s.get_char(start + i) != p.get_char(i) {
            assert(s@.subrange(start as int, m as int)[i as int] != p@[i as int]);
            return false;
        }
        i += 1;
    }
    assert(s@.subrange(start as int, m as int) =~= p@);
    true
}

/// Whether the two texts are the same characters.
pub fn same_text(a: &str, b: &str) -> (r: bool)
    ensures
        r == (a@ == b@),
{
    let n = a.unicode_len();
    if n != b.unicode_len() {
        return false;
    }
    let mut i: usize = 0;
    while i < n
        invariant
            n == a@.len(),
            n == b@.len(),
            i <= n,
            forall|j: int| 0 <= j < i ==> a@[j] == b@[j],
        decreases n - i,
    {
        if a.get_char(i) != b.get_char(i) {
            return false;
        }
        i += 1;
    }
    assert(a@ =~= b@);
    true
}

/// Whether `c` occurs in `s`.
pub fn contains_char(s: &str, c: char) -> (r: bool)
    ensures
        r == s@.contains(c),
{
    let n = s.unicode_len();
    let mut i: usize = 0;
    while i < n
        invariant
            n == s@.len(),
            i <= n,
            forall|j: int| 0 <= j < i ==> s@[j] != c,
        decreases n - i,
    {
        if s.get_char(i) == c {
            return true;
        }
        i += 1;
    }
    false
}

/// The separator between the fields of a stored note.
pub open spec fn field_sep() -> char {
    '\x1f'
}

/// Joining one more piece adds the separator and the piece.
pub proof fn lemma_join_push(parts: Seq<Seq<char>>, piece: Seq<char>, sep: char)
    ensures
        join_with(parts.push(piece), sep) == (if parts.len() == 0 {
            piece
        } else {
            join_with(parts, sep).push(sep) + piece
        }),
{
    if parts.len() > 0 {
        assert(parts.push(piece).drop_last() =~= parts);
    }
}

/// Cuts `s` at every separator of stored fields.
pub fn split_fields(s: &str) -> (r: Vec<String>)
    ensures
        r@.len() >= 1,
        join_with(views(r@), field_sep()) == s@,
        forall|k: int| 0 <= k < r@.len() ==> !(#[trigger] r@[k])@.contains(field_sep()),
{
    let n = s.unicode_len();
    let mut out: Vec<String> = Vec::new();
    let mut start: usize = 0;
    let mut i: usize = 0;
    while i < n
        invariant
            n == s@.len(),
            start <= i <= n,
            join_with(views(out@).push(s@.subrange(start as int, i as int)), field_sep())
                == s@.subrange(0, i as int),
            forall|k: int| 0 <= k < out@.len() ==> !(#[trigger] out@[k])@.contains(field_sep()),
            forall|j: int| start <= j < i ==> s@[j] != field_sep(),
        decreases n - i,
    {
        let c = s.get_char(i);
        if c == '\x1f' {
            let piece = s.substring_char(start, i).to_owned();
            proof {
                lemma_join_push(views(out@), s@.subrange(start as int, i as int), field_sep());
                assert(!piece@.contains(field_sep()));
            }
            let ghost prev = out@;
            out.push(piece);
            proof {
                assert(views(out@) =~= views(prev).push(piece@));
            }
            start = i + 1;
            i = i + 1;
            proof {
                lemma_join_push(views(out@), s@.subrange(start as int, i as int), field_sep());
                assert(s@.subrange(start as int, i as int) =~= Seq::<char>::empty());
                assert(s@.subrange(0, i as int) =~= s@.subrange(0, (i - 1) as int).push(
                    field_sep(),
                ));
            }
        } else {
            proof {
                let ghost pre = views(out@);
                lemma_join_push(pre, s@.subrange(start as int, i as int), field_sep());
                lemma_join_push(pre, s@.subrange(start as int, i + 1), field_sep());
                assert(s@.subrange(start as int, i + 1) =~= s@.subrange(
                    start as int,
                    i as int,
                ).push(c));
                assert(s@.subrange(0, i + 1) =~= s@.subrange(0, i as int).push(c));
            }
            i = i + 1;
        }
    }
    let last = s.substring_char(start, n).to_owned();
    let ghost before = out@;
    out.push(last);
    proof {
        assert(views(out@) =~= views(before).push(last@));
        assert(s@.subrange(0, n as int) =~= s@);
        assert(!last@.contains(field_sep()));
    }
    out
}

/// Writes the fields one after another with the stored-field separator between them.
pub fn join_fields(parts: &Vec<String>) -> (r: String)
    ensures
        r@ == join_with(views(parts@), field_sep()),
{
    let sep = "\x1f";
    proof {
        reveal_strlit("\x1f");
    }
    assert(sep@ =~= seq![field_sep()]);
    let mut out = String::new();
    let mut i: usize = 0;
    while i < parts.len()
        invariant
            sep@ == seq![field_sep()],
            i <= parts@.len(),
            out@ == join_with(views(parts@.subrange(0, i as int)), field_sep()),
        decreases parts@.len() - i,
    {
        proof {
            lemma_join_push(views(parts@.subrange(0, i as int)), parts@[i as int]@, field_sep());
            assert(views(parts@.subrange(0, i + 1)) =~= views(parts@.subrange(0, i as int)).push(
                parts@[i as int]@,
            ));
        }
        if i > 0 {
            out.append(sep);
        }
        out.append(parts[i].as_str());
        i += 1;
    }
    assert(parts@.subrange(0, parts@.len() as int) =~= parts@);
    out
}

/// `name` placed inside the directory `dir`; `name` itself when `dir` is empty.
pub open spec fn path_join(dir: Seq<char>, name: Seq<char>) -> Seq<char> {
    if dir.len() == 0 {
        name
    } else if dir.last() == '/' {
        dir + name
    } else {
        dir.push('/') + name
    }
}

/// Places `name` inside the directory `dir`; gives `name` itself when `dir` is empty.
pub fn join_path(dir: &str, name: &str) -> (r: String)
    ensures
        r@ == path_join(dir@, name@),
{
    let n = dir.unicode_len();
    if n == 0 {
        return String::from_str(name);
    }
    let mut out = String::from_str(dir);
    if dir.get_char(n - 1) != '/' {
        let slash = "/";
        proof {
            reveal_strlit("/");
        }
        out.append(slash);
        assert(out@ =~= dir@.push('/'));
    }
    out.append(name);
    out
}

} // verus!
