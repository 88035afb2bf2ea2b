//! Character-level operations on strings, each tied to the sequence of characters that the string
//! stands for.
use vstd::prelude::*;

verus! {

broadcast use vstd::string::group_string_axioms;

/// `String::push` appends one character.
pub assume_specification[ String::push ](s: &mut String, c: char)
    ensures
        final(s)@ == old(s)@.push(c),
;

/// The characters of a string, in order.
pub fn chars(s: &str) -> (result: Vec<char>)
    ensures
        result@ == s@,
{
    let mut result: Vec<char> = Vec::new();
    for c in it: s.chars()
        invariant
            it.seq() == s@,
            result@ == s@.take(it.index() as int),
    {
        result.push(c);
    }
    result
}

/// The string made of the characters from `from` up to, not including, `to`.
pub fn from_range(cs: &Vec<char>, from: usize, to: usize) -> (result: String)
    requires
        from <= to <= cs@.len(),
    ensures
        result@ == cs@.subrange(from as int, to as int),
{
    let mut result = String::new();
    let mut i: usize = from;
    while i < to
        invariant
            from <= i <= to <= cs@.len(),
            result@ == cs@.subrange(from as int, i as int),
        decreases to - i,
    {
        result.push(cs[i]);
        i += 1;
    }
    result
}

/// Whether two strings hold the same characters.
pub fn eq(a: &str, b: &str) -> (result: bool)
    ensures
        result == (a@ == b@),
{
    let x = chars(a);
    let y = chars(b);
    if x.len() != y.len() {
        return false;
    }
    let mut i: usize = 0;
    while i < x.len()
        invariant
            i <= x.len(),
            x.len() == y.len(),
            x@ == a@,
            y@ == b@,
            forall|j: int| 0 <= j < i ==> x@[j] == y@[j],
        decreases x.len() - i,
    {
        if x[i] != y[i] {
            return false;
        }
        i += 1;
    }
    assert(a@ =~= b@);
    true
}

/// Whether the string holds no character.
pub fn is_empty(s: &str) -> (result: bool)
    ensures
        result == (s@.len() == 0),
{
    s.unicode_len() == 0
}

/// The three parts one after the other.
pub fn cat3(a: &str, b: &str, c: &str) -> (result: String)
    ensures
        result@ == a@ + b@ + c@,
{
    let mut s = a.to_owned();
    s.append(b);
    s.append(c);
    s
}

/// The four parts one after the other.
pub fn cat4(a: &str, b: &str, c: &str, d: &str) -> (result: String)
    ensures
        result@ == a@ + b@ + c@ + d@,
{
    let mut s = cat3(a, b, c);
    s.append(d);
    s
}

/// The five parts one after the other.
pub fn cat5(a: &str, b: &str, c: &str, d: &str, e: &str) -> (result: String)
    ensures
        result@ == a@ + b@ + c@ + d@ + e@,
{
    let mut s = cat3(a, b, c);
    s.append(d);
    s.append(e);
    s
}

/// The two parts one after the other.
pub fn cat2(a: &str, b: &str) -> (result: String)
    ensures
        result@ == a@ + b@,
{
    let mut s = a.to_owned();
    s.append(b);
    s
}

/// A copy of a list of strings.
pub fn copy_strings(list: &Vec<String>) -> (result: Vec<String>)
    ensures
        result@ == list@,
{
    let mut result: Vec<String> = Vec::new();
    let mut i: usize = 0;
    while i < list.len()
        invariant
            i <= list@.len(),
            result@ == list@.take(i as int),
        decreases list@.len() - i,
    {
        result.push(list[i].clone());
        i += 1;
    }
    result
}

/// The texts of a list of strings.
pub open spec fn views(list: Seq<String>) -> Seq<Seq<char>> {
    list.map_values(|s: String| s@)
}

/// Whether a list of strings holds the given text.
pub fn list_contains(list: &Vec<String>, item: &str) -> (result: bool)
    ensures
        result == views(list@).contains(item@),
{
    let mut i: usize = 0;
    while i < list.len()
        invariant
            i <= list@.len(),
            forall|j: int| 0 <= j < i ==> views(list@)[j] != item@,
        decreases list@.len() - i,
    {
        if eq(list[i].as_str(), item) {
            assert(views(list@)[i as int] == item@);
            return true;
        }
        i += 1;
    }
    false
}

// ---------------------------------------------------------------------------------------------
// Searching
// ---------------------------------------------------------------------------------------------

/// The place of the first `c` in `s`, or the length of `s` where there is none.
pub open spec fn position(s: Seq<char>, c: char) -> int
    decreases s.len(),
{
    if s.len() == 0 || s[0] == c {
        0
    } else {
        1 + position(s.drop_first(), c)
    }
}

/// What sets `position` apart from every other place.
pub proof fn lemma_position(s: Seq<char>, c: char, p: int)
    requires
        0 <= p <= s.len(),
        forall|j: int| 0 <= j < p ==> s[j] != c,
        p < s.len() ==> s[p] == c,
    ensures
        position(s, c) == p,
    decreases s.len(),
{
    if p > 0 {
        assert(s[0] != c);
        lemma_position(s.drop_first(), c, p - 1);
    }
}

/// `position` lies within the sequence, at a `c` or at the end, behind nothing but other characters.
pub proof fn lemma_position_bounds(s: Seq<char>, c: char)
    ensures
        0 <= position(s, c) <= s.len(),
        position(s, c) < s.len() ==> s[position(s, c)] == c,
        forall|j: int| 0 <= j < position(s, c) ==> s[j] != c,
        position(s, c) < s.len() <==> s.contains(c),
    decreases s.len(),
{
    if s.len() > 0 && s[0] != c {
        let t = s.drop_first();
        lemma_position_bounds(t, c);
        assert forall|j: int| 0 <= j < position(s, c) implies s[j] != c by {
            if j > 0 {
                assert(t[j - 1] == s[j]);
            }
        }
        if position(s, c) < s.len() {
            assert(t[position(t, c)] == s[position(s, c)]);
        }
        if s.contains(c) {
            let k = choose|k: int| 0 <= k < s.len() && s[k] == c;
            assert(t[k - 1] == c);
        }
    }
}

/// The place of the first `c` at or behind `from`, or the length where there is none.
pub fn position_from(cs: &Vec<char>, from: usize, c: char) -> (result: usize)
    requires
        from <= cs@.len(),
    ensures
        from <= result <= cs@.len(),
        result == from + position(cs@.skip(from as int), c),
        forall|j: int| from <= j < result ==> cs@[j] != c,
        result < cs@.len() ==> cs@[result as int] == c,
{
    let mut i: usize = from;
    while i < cs.len() && cs[i] != c
        invariant
            from <= i <= cs@.len(),
            forall|j: int| from <= j < i ==> cs@[j] != c,
        decreases cs@.len() - i,
    {
        i += 1;
    }
    proof {
        lemma_position(cs@.skip(from as int), c, i - from);
    }
    i
}

/// Whether the string holds the character.
pub fn contains_char(s: &str, c: char) -> (result: bool)
    ensures
        result == s@.contains(c),
{
    let cs = chars(s);
    let p = position_from(&cs, 0, c);
    proof {
        assert(cs@.skip(0) =~= s@);
        lemma_position_bounds(s@, c);
    }
    p < cs.len()
}

/// Whether `pat` stands in `s` at place `i`.
pub open spec fn occurs_at(s: Seq<char>, pat: Seq<char>, i: int) -> bool {
    0 <= i && i + pat.len() <= s.len() && s.subrange(i, i + pat.len()) == pat
}

/// The place of the first occurrence of `pat` in `s` at or behind `i`, if there is one.
pub open spec fn find_from(s: Seq<char>, pat: Seq<char>, i: int) -> Option<int>
    decreases s.len() + 1 - i,
{
    if i < 0 || i + pat.len() > s.len() {
        None
    } else if occurs_at(s, pat, i) {
        Some(i)
    } else {
        find_from(s, pat, i + 1)
    }
}

/// A place that is found is an occurrence, and none stands before it.
pub proof fn lemma_find_from(s: Seq<char>, pat: Seq<char>, i: int)
    requires
        0 <= i,
    ensures
        find_from(s, pat, i) matches Some(p) ==> {
            &&& i <= p
            &&& occurs_at(s, pat, p)
            &&& forall|j: int| i <= j < p ==> !occurs_at(s, pat, j)
        },
        find_from(s, pat, i) is None ==> forall|j: int| i <= j ==> !occurs_at(s, pat, j),
    decreases s.len() + 1 - i,
{
    if i + pat.len() <= s.len() && !occurs_at(s, pat, i) {
        lemma_find_from(s, pat, i + 1);
    }
}

fn matches_at(s: &Vec<char>, pat: &Vec<char>, i: usize) -> (result: bool)
    requires
        i + pat@.len() <= s@.len(),
    ensures
        result == occurs_at(s@, pat@, i as int),
{
    let mut k: usize = 0;
    while k < pat.len()
        invariant
            k <= pat@.len(),
            i + pat@.len() <= s.len(),
            forall|j: int| 0 <= j < k ==> s@[i + j] == pat@[j],
        decreases pat@.len() - k,
    {
        if s[i + k] != pat[k] {
            assert(s@.subrange(i as int, i + pat@.len())[k as int] != pat@[k as int]);
            return false;
        }
        k += 1;
    }
    assert(s@.subrange(i as int, i + pat@.len()) =~= pat@);
    true
}

/// The place of the first occurrence of `pat` at or behind `from`.
pub fn find_in(s: &Vec<char>, pat: &Vec<char>, from: usize) -> (result: Option<usize>)
    requires
        from <= s@.len(),
    ensures
        match result {
            Some(p) => find_from(s@, pat@, from as int) == Some(p as int) && from <= p && p
                + pat@.len() <= s@.len(),
            None => find_from(s@, pat@, from as int) is None,
        },
{
    let mut i: usize = from;
    while i <= s.len() && pat.len() <= s.len() - i
        invariant
            from <= i <= s@.len() + 1,
            find_from(s@, pat@, from as int) == find_from(s@, pat@, i as int),
        decreases s@.len() + 1 - i,
    {
        if matches_at(s, pat, i) {
            return Some(i);
        }
        if i == s.len() {
            assert(find_from(s@, pat@, i + 1) is None);
            return None;
        }
        i += 1;
    }
    None
}

/// Whether the string begins with `prefix`.
pub fn starts_with(s: &str, prefix: &str) -> (result: bool)
    ensures
        result == prefix@.is_prefix_of(s@),
{
    let a = chars(s);
    let b = chars(prefix);
    if b.len() > a.len() {
        return false;
    }
    proof {
        assert(a@.subrange(0, b@.len() as int) == b@ <==> b@.is_prefix_of(a@));
    }
    matches_at(&a, &b, 0)
}

/// Whether the string ends with `suffix`.
pub fn ends_with(s: &str, suffix: &str) -> (result: bool)
    ensures
        result == suffix@.is_suffix_of(s@),
{
    let a = chars(s);
    let b = chars(suffix);
    if b.len() > a.len() {
        return false;
    }
    proof {
        let k = a@.len() - b@.len();
        assert(a@.subrange(k, k + b@.len()) == b@ <==> b@.is_suffix_of(a@));
    }
    matches_at(&a, &b, a.len() - b.len())
}

// ---------------------------------------------------------------------------------------------
// Splitting and trimming
// ---------------------------------------------------------------------------------------------

/// The pieces of `s` between the occurrences of `c`. There is always at least one piece.
pub open spec fn split(s: Seq<char>, c: char) -> Seq<Seq<char>>
    decreases s.len(),
    when true
    via split_decreases
{
    let p = position(s, c);
    if p < s.len() {
        seq![s.take(p)] + split(s.skip(p + 1), c)
    } else {
        seq![s]
    }
}

#[via_fn]
proof fn split_decreases(s: Seq<char>, c: char) {
    lemma_position_bounds(s, c);
}

/// A text that begins with a piece without `c` and then `c` splits into that piece and the pieces of
/// the rest.
pub proof fn lemma_split_first(piece: Seq<char>, rest: Seq<char>, c: char)
    requires
        !piece.contains(c),
    ensures
        split(piece + seq![c] + rest, c) == seq![piece] + split(rest, c),
{
    let s = piece + seq![c] + rest;
    assert forall|j: int| 0 <= j < piece.len() implies s[j] != c by {
        assert(s[j] == piece[j]);
    }
    lemma_position(s, c, piece.len() as int);
    assert(s.take(piece.len() as int) =~= piece);
    assert(s.skip(piece.len() as int + 1) =~= rest);
}

/// A text without `c` is one piece.
pub proof fn lemma_split_none(s: Seq<char>, c: char)
    requires
        !s.contains(c),
    ensures
        split(s, c) == seq![s],
{
    assert forall|j: int| 0 <= j < s.len() implies s[j] != c by {}
    lemma_position(s, c, s.len() as int);
}

/// Pieces with a `c` between each two.
pub open spec fn joined(pieces: Seq<Seq<char>>, c: char) -> Seq<char>
    decreases pieces.len(),
{
    if pieces.len() == 0 {
        Seq::empty()
    } else if pieces.len() == 1 {
        pieces[0]
    } else {
        pieces[0] + seq![c] + joined(pieces.drop_first(), c)
    }
}

/// The pieces of a text give the text again when they are joined, and none of them holds a `c`.
pub proof fn law_split_is_undone(s: Seq<char>, c: char)
    ensures
        split(s, c).len() > 0,
        joined(split(s, c), c) == s,
        forall|i: int| 0 <= i < split(s, c).len() ==> !(#[trigger] split(s, c)[i]).contains(c),
    decreases s.len(),
{
    let p = position(s, c);
    lemma_position_bounds(s, c);
    if p < s.len() {
        let rest = s.skip(p + 1);
        law_split_is_undone(rest, c);
        let pieces = split(s, c);
        assert(pieces.drop_first() =~= split(rest, c));
        assert(joined(pieces, c) =~= s);
        assert forall|i: int| 0 <= i < pieces.len() implies !(#[trigger] pieces[i]).contains(c) by {
            if i == 0 {
                assert forall|j: int| 0 <= j < p implies s.take(p)[j] != c by {}
            } else {
                assert(pieces[i] == split(rest, c)[i - 1]);
            }
        }
    }
}

/// Pieces without `c` come back when what they are joined to is split.
pub proof fn law_join_is_undone(pieces: Seq<Seq<char>>, c: char)
    requires
        pieces.len() > 0,
        forall|i: int| 0 <= i < pieces.len() ==> !(#[trigger] pieces[i]).contains(c),
    ensures
        split(joined(pieces, c), c) == pieces,
    decreases pieces.len(),
{
    assert(!pieces[0].contains(c));
    if pieces.len() == 1 {
        lemma_split_none(pieces[0], c);
        assert(pieces =~= seq![pieces[0]]);
    } else {
        let rest = pieces.drop_first();
        assert forall|i: int| 0 <= i < rest.len() implies !(#[trigger] rest[i]).contains(c) by {
            assert(!pieces[i + 1].contains(c));
        }
        law_join_is_undone(rest, c);
        lemma_split_first(pieces[0], joined(rest, c), c);
        assert(pieces =~= seq![pieces[0]] + rest);
    }
}

/// The pieces of a string between the occurrences of a character.
pub fn split_char(s: &str, c: char) -> (result: Vec<String>)
    ensures
        views(result@) == split(s@, c),
        result@.len() >= 1,
{
    let cs = chars(s);
    let mut result: Vec<String> = Vec::new();
    let mut from: usize = 0;
    proof {
        assert(cs@.skip(0) =~= s@);
        assert(views(result@) + split(s@, c) =~= split(s@, c));
    }
    loop
        invariant_except_break
            cs@ == s@,
            from <= cs@.len(),
            views(result@) + split(cs@.skip(from as int), c) == split(s@, c),
        ensures
            views(result@) == split(s@, c),
            result@.len() >= 1,
        decreases cs@.len() - from,
    {
        let p = position_from(&cs, from, c);
        let piece = from_range(&cs, from, p);
        let ghost before = views(result@);
        let ghost rest = cs@.skip(from as int);
        result.push(piece);
        proof {
            assert(piece@ =~= rest.take(p - from));
            assert(views(result@) =~= before.push(piece@));
        }
        if p == cs.len() {
            proof {
                assert(piece@ =~= rest);
                assert(before + seq![rest] =~= before.push(rest));
            }
            break;
        }
        proof {
            assert(rest.skip(p - from + 1) =~= cs@.skip(p + 1));
            assert(before + (seq![piece@] + split(cs@.skip(p + 1), c)) =~= before.push(piece@)
                + split(cs@.skip(p + 1), c));
        }
        from = p + 1;
    }
    result
}

/// `s` without the leading run of `c`.
pub open spec fn trim_start(s: Seq<char>, c: char) -> Seq<char>
    decreases s.len(),
{
    if s.len() > 0 && s[0] == c {
        trim_start(s.drop_first(), c)
    } else {
        s
    }
}

/// `s` without the trailing run of `c`.
pub open spec fn trim_end(s: Seq<char>, c: char) -> Seq<char>
    decreases s.len(),
{
    if s.len() > 0 && s.last() == c {
        trim_end(s.drop_last(), c)
    } else {
        s
    }
}

/// What trimming the front takes off is nothing but `c`, and all of the leading run.
pub proof fn law_trim_start(run: nat, rest: Seq<char>, c: char)
    requires
        rest.len() > 0 ==> rest[0] != c,
    ensures
        trim_start(Seq::new(run, |i: int| c) + rest, c) == rest,
    decreases run,
{
    let s = Seq::new(run, |i: int| c) + rest;
    if run == 0 {
        assert(s =~= rest);
    } else {
        law_trim_start((run - 1) as nat, rest, c);
        assert(s[0] == c);
        assert(s.drop_first() =~= Seq::new((run - 1) as nat, |i: int| c) + rest);
    }
}

/// What trimming the end takes off is nothing but `c`, and all of the trailing run.
pub proof fn law_trim_end(rest: Seq<char>, run: nat, c: char)
    requires
        rest.len() > 0 ==> rest.last() != c,
    ensures
        trim_end(rest + Seq::new(run, |i: int| c), c) == rest,
    decreases run,
{
    let s = rest + Seq::new(run, |i: int| c);
    if run == 0 {
        assert(s =~= rest);
    } else {
        law_trim_end(rest, (run - 1) as nat, c);
        assert(s.last() == c);
        assert(s.drop_last() =~= rest + Seq::new((run - 1) as nat, |i: int| c));
    }
}

/// One more `c` at an end that is trimmed makes no difference, and nothing of it is left there.
pub proof fn lemma_trimmed(s: Seq<char>, c: char)
    ensures
        trim_start(seq![c] + s, c) == trim_start(s, c),
        trim_end(s + seq![c], c) == trim_end(s, c),
        trim_start(s, c).len() > 0 ==> trim_start(s, c)[0] != c,
        trim_end(s, c).len() > 0 ==> trim_end(s, c).last() != c,
    decreases s.len(),
{
    assert((seq![c] + s).drop_first() =~= s);
    assert((s + seq![c]).drop_last() =~= s);
    if s.len() > 0 {
        lemma_trimmed(s.drop_first(), c);
        lemma_trimmed(s.drop_last(), c);
    }
}

/// The string without the leading run of `c`.
pub fn trim_start_char(s: &str, c: char) -> (result: String)
    ensures
        result@ == trim_start(s@, c),
{
    let cs = chars(s);
    let mut i: usize = 0;
    assert(cs@.skip(0) =~= s@);
    while i < cs.len() && cs[i] == c
        invariant
            i <= cs@.len(),
            trim_start(cs@.skip(i as int), c) == trim_start(s@, c),
        decreases cs@.len() - i,
    {
        assert(cs@.skip(i as int).drop_first() =~= cs@.skip(i + 1));
        i += 1;
    }
    let r = from_range(&cs, i, cs.len());
    assert(r@ =~= cs@.skip(i as int));
    r
}

/// The string without the trailing run of `c`.
pub fn trim_end_char(s: &str, c: char) -> (result: String)
    ensures
        result@ == trim_end(s@, c),
{
    let cs = chars(s);
    let mut n: usize = cs.len();
    assert(cs@.take(n as int) =~= s@);
    while n > 0 && cs[n - 1] == c
        invariant
            n <= cs@.len(),
            trim_end(cs@.take(n as int), c) == trim_end(s@, c),
        decreases n,
    {
        assert(cs@.take(n as int).drop_last() =~= cs@.take(n - 1));
        n -= 1;
    }
    let r = from_range(&cs, 0, n);
    assert(r@ =~= cs@.take(n as int));
    r
}

/// The characters with the Unicode property `White_Space`.
pub open spec fn is_white(c: char) -> bool {
    let n = c as u32;
    ||| 0x09 <= n <= 0x0d
    ||| n == 0x20
    ||| n == 0x85
    ||| n == 0xa0
    ||| n == 0x1680
    ||| 0x2000 <= n <= 0x200a
    ||| n == 0x2028
    ||| n == 0x2029
    ||| n == 0x202f
    ||| n == 0x205f
    ||| n == 0x3000
}

/// Whether the character is white space.
pub fn is_whitespace(c: char) -> (result: bool)
    ensures
        result == is_white(c),
{
    let n = c as u32;
    (0x09 <= n && n <= 0x0d) || n == 0x20 || n == 0x85 || n == 0xa0 || n == 0x1680 || (0x2000 <= n
        && n <= 0x200a) || n == 0x2028 || n == 0x2029 || n == 0x202f || n == 0x205f || n == 0x3000
}

/// `s` without leading white space.
pub open spec fn trim_white_start(s: Seq<char>) -> Seq<char>
    decreases s.len(),
{
    if s.len() > 0 && is_white(s[0]) {
        trim_white_start(s.drop_first())
    } else {
        s
    }
}

/// `s` without trailing white space.
pub open spec fn trim_white_end(s: Seq<char>) -> Seq<char>
    decreases s.len(),
{
    if s.len() > 0 && is_white(s.last()) {
        trim_white_end(s.drop_last())
    } else {
        s
    }
}

/// Trimming takes white space off both ends, all of it, and nothing else.
pub proof fn law_trim(before: Seq<char>, middle: Seq<char>, after: Seq<char>)
    requires
        forall|i: int| 0 <= i < before.len() ==> is_white(#[trigger] before[i]),
        forall|i: int| 0 <= i < after.len() ==> is_white(#[trigger] after[i]),
        middle.len() > 0 ==> !is_white(middle[0]) && !is_white(middle.last()),
    ensures
        trim_white_end(trim_white_start(before + middle + after)) == middle,
    decreases before.len() + after.len(),
{
    let s = before + middle + after;
    if before.len() > 0 {
        let less = before.drop_first();
        assert forall|i: int| 0 <= i < less.len() implies is_white(#[trigger] less[i]) by {
            assert(is_white(before[i + 1]));
        }
        law_trim(less, middle, after);
        assert(s[0] == before[0]);
        assert(s.drop_first() =~= less + middle + after);
    } else if middle.len() == 0 {
        assert(s =~= after);
        if after.len() > 0 {
            let less = after.drop_first();
            assert forall|i: int| 0 <= i < less.len() implies is_white(#[trigger] less[i]) by {
                assert(is_white(after[i + 1]));
            }
            law_trim(before, middle, less);
            assert(before + middle + less =~= s.drop_first());
            assert(is_white(s[0]));
        }
        assert(middle =~= Seq::<char>::empty());
    } else {
        assert(s[0] == middle[0]);
        if after.len() > 0 {
            let less = after.drop_last();
            assert forall|i: int| 0 <= i < less.len() implies is_white(#[trigger] less[i]) by {
                assert(is_white(after[i]));
            }
            law_trim(before, middle, less);
            let t = before + middle + less;
            assert(t[0] == middle[0]);
            assert(s.last() == after.last());
            assert(s.drop_last() =~= t);
        } else {
            assert(s =~= middle);
        }
    }
}

/// The string without white space at either end.
pub fn trim(s: &str) -> (result: String)
    ensures
        result@ == trim_white_end(trim_white_start(s@)),
{
    let cs = chars(s);
    let mut i: usize = 0;
    assert(cs@.skip(0) =~= s@);
    while i < cs.len() && is_whitespace(cs[i])
        invariant
            i <= cs@.len(),
            trim_white_start(cs@.skip(i as int)) == trim_white_start(s@),
        decreases cs@.len() - i,
    {
        assert(cs@.skip(i as int).drop_first() =~= cs@.skip(i + 1));
        i += 1;
    }
    let ghost mid = cs@.skip(i as int);
    let mut n: usize = cs.len();
    assert(cs@.subrange(i as int, n as int) =~= mid);
    while n > i && is_whitespace(cs[n - 1])
        invariant
            i <= n <= cs@.len(),
            trim_white_end(cs@.subrange(i as int, n as int)) == trim_white_end(mid),
        decreases n,
    {
        assert(cs@.subrange(i as int, n as int).drop_last() =~= cs@.subrange(i as int, n - 1));
        n -= 1;
    }
    from_range(&cs, i, n)
}

// ---------------------------------------------------------------------------------------------
// Numbers
// ---------------------------------------------------------------------------------------------

/// The character of a decimal digit.
pub open spec fn digit_char(d: nat) -> char {
    seq!['0', '1', '2', '3', '4', '5', '6', '7', '8', '9'][d as int]
}

/// The decimal digits of a number, without leading zeros.
pub open spec fn decimal(n: nat) -> Seq<char>
    decreases n,
{
    if n < 10 {
        seq![digit_char(n)]
    } else {
        decimal(n / 10).push(digit_char(n % 10))
    }
}

/// A number is written as in school: a single digit by its character, a longer number by what its
/// tens are written as, then its last digit.
pub proof fn law_decimal(tens: nat, last: nat)
    requires
        last < 10,
    ensures
        decimal(last).len() == 1,
        decimal(last)[0] as int == '0' as int + last,
        tens > 0 ==> decimal(10 * tens + last) == decimal(tens) + decimal(last),
{
    let n = 10 * tens + last;
    if tens > 0 {
        assert(n / 10 == tens && n % 10 == last);
        assert(decimal(tens) + decimal(last) =~= decimal(tens).push(digit_char(last)));
    }
}

/// Different numbers are written differently.
pub proof fn law_decimals_differ(a: nat, b: nat)
    requires
        decimal(a) == decimal(b),
    ensures
        a == b,
    decreases a,
{
    lemma_decimal_len(a);
    lemma_decimal_len(b);
    law_decimal(a / 10, a % 10);
    law_decimal(b / 10, b % 10);
    assert(decimal(a).last() == decimal(a % 10)[0]);
    assert(decimal(b).last() == decimal(b % 10)[0]);
    if a >= 10 && b >= 10 {
        assert(decimal(a).drop_last() =~= decimal(a / 10));
        assert(decimal(b).drop_last() =~= decimal(b / 10));
        law_decimals_differ(a / 10, b / 10);
    }
}

proof fn lemma_decimal_len(n: nat)
    ensures
        decimal(n).len() >= 1,
        n < 10 <==> decimal(n).len() == 1,
    decreases n,
{
    if n >= 10 {
        lemma_decimal_len(n / 10);
    }
}

/// The decimal digits of a number.
pub fn number(n: u64) -> (result: String)
    ensures
        result@ == decimal(n as nat),
    decreases n,
{
    let d = match n % 10 {
        0 => '0',
        1 => '1',
        2 => '2',
        3 => '3',
        4 => '4',
        5 => '5',
        6 => '6',
        7 => '7',
        8 => '8',
        _ => '9',
    };
    if n < 10 {
        let mut s = String::new();
        s.push(d);
        assert(s@ =~= seq![digit_char(n as nat)]);
        s
    } else {
        let mut s = number(n / 10);
        s.push(d);
        s
    }
}

// ---------------------------------------------------------------------------------------------
// Alphabetical order
// ---------------------------------------------------------------------------------------------

/// Alphabetical order by the code points of the characters: `a` stands before `b` or equals it.
pub open spec fn lex_le(a: Seq<char>, b: Seq<char>) -> bool
    decreases a.len(),
{
    if a.len() == 0 {
        true
    } else if b.len() == 0 {
        false
    } else if a[0] == b[0] {
        lex_le(a.drop_first(), b.drop_first())
    } else {
        (a[0] as int) < (b[0] as int)
    }
}

/// Any two texts are in order one way or the other.
pub proof fn lemma_lex_total(a: Seq<char>, b: Seq<char>)
    ensures
        lex_le(a, b) || lex_le(b, a),
        lex_le(a, a),
    decreases a.len(),
{
    if a.len() > 0 {
        lemma_lex_total(a.drop_first(), a.drop_first());
        if b.len() > 0 && a[0] == b[0] {
            lemma_lex_total(a.drop_first(), b.drop_first());
        }
    }
}

/// Texts that are in order both ways are the same.
pub proof fn lemma_lex_antisymmetric(a: Seq<char>, b: Seq<char>)
    requires
        lex_le(a, b),
        lex_le(b, a),
    ensures
        a == b,
    decreases a.len(),
{
    if a.len() == 0 || b.len() == 0 {
        assert(a =~= b);
    } else {
        lemma_lex_antisymmetric(a.drop_first(), b.drop_first());
        assert(a =~= seq![a[0]] + a.drop_first());
        assert(b =~= seq![b[0]] + b.drop_first());
    }
}

/// The order is transitive.
pub proof fn lemma_lex_transitive(a: Seq<char>, b: Seq<char>, c: Seq<char>)
    requires
        lex_le(a, b),
        lex_le(b, c),
    ensures
        lex_le(a, c),
    decreases a.len(),
{
    if a.len() > 0 && a[0] == b[0] && b[0] == c[0] {
        lemma_lex_transitive(a.drop_first(), b.drop_first(), c.drop_first());
    }
}

/// The first character in which two texts differ decides which stands first, and a text stands
/// before every longer one that begins with it.
pub proof fn law_alphabetical_order(
    shared: Seq<char>,
    x: char,
    rest: Seq<char>,
    y: char,
    other: Seq<char>,
)
    requires
        (x as int) < (y as int),
    ensures
        lex_le(shared + seq![x] + rest, shared + seq![y] + other),
        !lex_le(shared + seq![y] + other, shared + seq![x] + rest),
        lex_le(shared, shared + rest),
        rest.len() > 0 ==> !lex_le(shared + rest, shared),
    decreases shared.len(),
{
    let a = shared + seq![x] + rest;
    let b = shared + seq![y] + other;
    if shared.len() > 0 {
        let less = shared.drop_first();
        law_alphabetical_order(less, x, rest, y, other);
        assert(a.drop_first() =~= less + seq![x] + rest);
        assert(b.drop_first() =~= less + seq![y] + other);
        assert((shared + rest).drop_first() =~= less + rest);
        assert(a[0] == b[0]);
    } else {
        assert(shared + rest =~= rest);
        assert(a[0] == x && b[0] == y);
    }
}

/// Whether the first string stands before the second in alphabetical order, or equals it.
pub fn le(a: &str, b: &str) -> (result: bool)
    ensures
        result == lex_le(a@, b@),
{
    let x = chars(a);
    let y = chars(b);
    let mut i: usize = 0;
    assert(x@.skip(0) =~= a@);
    assert(y@.skip(0) =~= b@);
    while i < x.len() && i < y.len()
        invariant
            i <= x@.len(),
            i <= y@.len(),
            lex_le(x@.skip(i as int), y@.skip(i as int)) == lex_le(a@, b@),
        decreases x@.len() - i,
    {
        if x[i] != y[i] {
            let c: char = x[i];
            let d: char = y[i];
            return c < d;
        }
        assert(x@.skip(i as int).drop_first() =~= x@.skip(i + 1));
        assert(y@.skip(i as int).drop_first() =~= y@.skip(i + 1));
        i += 1;
    }
    i == x.len()
}

} // verus!
