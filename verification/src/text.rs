//! Searching, splitting and trimming of character sequences.
//!
//! Every algorithm here works on a slice of `char`, whose view is the `Seq<char>` that the
//! specifications speak of. [`chars_of`] and [`string_of`] move between such slices and strings.

use vstd::prelude::*;

verus! {

/// `String::push` appends one character to the end of the string and changes nothing else.
pub assume_specification[ String::push ](s: &mut String, c: char)
    ensures
        final(s)@ == old(s)@.push(c),
;

/// The characters of `s`, in order, as a vector that can be indexed in constant time.
pub fn chars_of(s: &str) -> (v: Vec<char>)
    ensures
        v@ == s@,
{
    let mut v: Vec<char> = Vec::new();
    for c in it: s.chars()
        invariant
            it.seq() == s@,
            v@ == s@.take(it.index()),
    {
        v.push(c);
    }
    v
}

/// The string made of the characters of `chars`, in order.
pub fn string_of(chars: &[char]) -> (s: String)
    ensures
        s@ == chars@,
{
    let mut s = String::new();
    let mut i: usize = 0;
    while i < chars.len()
        invariant
            i <= chars.len(),
            s@ == chars@.take(i as int),
        decreases chars.len() - i,
    {
        s.push(chars[i]);
        i += 1;
    }
    s
}

/// The characters of `chars` from index `from` up to, not including, index `to`.
pub(crate) fn copy_range(chars: &[char], from: usize, to: usize) -> (v: Vec<char>)
    requires
        from <= to <= chars.len(),
    ensures
        v@ == chars@.subrange(from as int, to as int),
{
    let mut v: Vec<char> = Vec::new();
    let mut i: usize = from;
    while i < to
        invariant
            from <= i <= to <= chars.len(),
            v@ == chars@.subrange(from as int, i as int),
        decreases to - i,
    {
        v.push(chars[i]);
        i += 1;
    }
    v
}

/// `needle` stands in `hay` at index `at`.
pub open spec fn occurs_at(hay: Seq<char>, needle: Seq<char>, at: int) -> bool {
    &&& 0 <= at
    &&& at + needle.len() <= hay.len()
    &&& hay.subrange(at, at + needle.len()) == needle
}

/// The least index at or after `from` at which `needle` stands in `hay`, if there is one.
pub open spec fn find_from(hay: Seq<char>, needle: Seq<char>, from: int) -> Option<int>
    decreases hay.len() - from + 1,
{
    if from < 0 || from + needle.len() > hay.len() {
        None
    } else if occurs_at(hay, needle, from) {
        Some(from)
    } else {
        find_from(hay, needle, from + 1)
    }
}

/// `needle` stands somewhere in `hay`.
pub open spec fn contains(hay: Seq<char>, needle: Seq<char>) -> bool {
    find_from(hay, needle, 0) is Some
}

/// What `find_from` returns is the first occurrence at or after `from`; it returns `None`
/// exactly when there is no occurrence there.
pub proof fn lemma_find_from(hay: Seq<char>, needle: Seq<char>, from: int)
    requires
        0 <= from,
    ensures
        match find_from(hay, needle, from) {
            Some(at) => {
                &&& from <= at
                &&& occurs_at(hay, needle, at)
                &&& forall|j: int| from <= j < at ==> !occurs_at(hay, needle, j)
            },
            None => forall|j: int| from <= j ==> !occurs_at(hay, needle, j),
        },
    decreases hay.len() - from + 1,
{
    if from + needle.len() > hay.len() {
    } else if occurs_at(hay, needle, from) {
    } else {
        lemma_find_from(hay, needle, from + 1);
    }
}

/// What stands in a part of `hay` stands in `hay`.
pub proof fn lemma_contains_subrange(hay: Seq<char>, needle: Seq<char>, from: int, to: int)
    requires
        0 <= from <= to <= hay.len(),
        contains(hay.subrange(from, to), needle),
    ensures
        contains(hay, needle),
{
    let part = hay.subrange(from, to);
    lemma_find_from(part, needle, 0);
    lemma_find_from(hay, needle, 0);
    let at = find_from(part, needle, 0).unwrap();
    assert(hay.subrange(from + at, from + at + needle.len()) =~= part.subrange(
        at,
        at + needle.len(),
    ));
    assert(occurs_at(hay, needle, from + at));
}

/// Whether `needle` stands in `hay` at index `at`.
pub fn matches_at(hay: &[char], needle: &[char], at: usize) -> (r: bool)
    ensures
        r == occurs_at(hay@, needle@, at as int),
{
    if needle.len() > hay.len() || at > hay.len() - needle.len() {
        return false;
    }
    let mut k: usize = 0;
    while k < needle.len()
        invariant
            k <= needle.len(),
            at + needle.len() <= hay.len(),
            forall|j: int| 0 <= j < k ==> hay@[at + j] == needle@[j],
        decreases needle.len() - k,
    {
        if hay[at + k] != needle[k] {
            assert(hay@.subrange(at as int, at + needle.len())[k as int] != needle@[k as int]);
            return false;
        }
        k += 1;
    }
    assert(hay@.subrange(at as int, at + needle.len()) =~= needle@);
    true
}

/// The first index at or after `from` at which `needle` stands in `hay`.
pub fn find(hay: &[char], needle: &[char], from: usize) -> (r: Option<usize>)
    ensures
        match r {
            Some(at) => find_from(hay@, needle@, from as int) == Some(at as int),
            None => find_from(hay@, needle@, from as int) is None,
        },
{
    if needle.len() > hay.len() {
        return None;
    }
    let last: usize = hay.len() - needle.len();
    let mut i: usize = from;
    while i <= last
        invariant
            from <= i,
            last == hay.len() - needle.len(),
            find_from(hay@, needle@, from as int) == find_from(hay@, needle@, i as int),
        decreases last + 1 - i,
    {
        if matches_at(hay, needle, i) {
            return Some(i);
        }
        if i == last {
            assert(find_from(hay@, needle@, i + 1) is None);
            return None;
        }
        i += 1;
    }
    None
}

/// The pieces of `text` between the occurrences of `sep`, found from left to right without
/// overlap. There is always at least one piece; without an occurrence it is `text` itself.
pub open spec fn split_on(text: Seq<char>, sep: Seq<char>) -> Seq<Seq<char>>
    decreases text.len(),
    via split_on_decreases
{
    if sep.len() == 0 {
        seq![text]
    } else {
        match find_from(text, sep, 0) {
            None => seq![text],
            Some(at) => seq![text.subrange(0, at)] + split_on(
                text.subrange(at + sep.len(), text.len() as int),
                sep,
            ),
        }
    }
}

#[via_fn]
proof fn split_on_decreases(text: Seq<char>, sep: Seq<char>) {
    lemma_find_from(text, sep, 0);
}

/// Where `needle` stands nowhere in `text`, it stands in none of the pieces of `text`.
pub proof fn lemma_split_pieces_lack(text: Seq<char>, sep: Seq<char>, needle: Seq<char>)
    requires
        !contains(text, needle),
    ensures
        forall|i: int|
            0 <= i < split_on(text, sep).len() ==> !contains(
                #[trigger] split_on(text, sep)[i],
                needle,
            ),
    decreases text.len(),
{
    if sep.len() > 0 && find_from(text, sep, 0) is Some {
        lemma_find_from(text, sep, 0);
        let at = find_from(text, sep, 0).unwrap();
        let head = text.subrange(0, at);
        let tail = text.subrange(at + sep.len(), text.len() as int);
        if contains(head, needle) {
            lemma_contains_subrange(text, needle, 0, at);
        }
        if contains(tail, needle) {
            lemma_contains_subrange(text, needle, at + sep.len(), text.len() as int);
        }
        lemma_split_pieces_lack(tail, sep, needle);
        assert forall|i: int| 0 <= i < split_on(text, sep).len() implies !contains(
            #[trigger] split_on(text, sep)[i],
            needle,
        ) by {
            if i > 0 {
                assert(split_on(text, sep)[i] == split_on(tail, sep)[i - 1]);
            }
        }
    }
}

/// The views of the vectors of `parts`, in order.
pub open spec fn views(parts: Seq<Vec<char>>) -> Seq<Seq<char>> {
    Seq::new(parts.len(), |i: int| parts[i]@)
}

/// Searching a suffix of `hay` finds what searching `hay` from the suffix's start finds,
/// with every index shifted by that start.
pub proof fn lemma_find_from_suffix(hay: Seq<char>, needle: Seq<char>, start: int, from: int)
    requires
        0 <= start <= from,
        start <= hay.len(),
    ensures
        find_from(hay.subrange(start, hay.len() as int), needle, from - start) == match find_from(
            hay,
            needle,
            from,
        ) {
            Some(at) => Some(at - start),
            None => None,
        },
    decreases hay.len() - from + 1,
{
    let tail = hay.subrange(start, hay.len() as int);
    if from + needle.len() > hay.len() {
    } else {
        assert(tail.subrange(from - start, from - start + needle.len()) =~= hay.subrange(
            from,
            from + needle.len(),
        ));
        if occurs_at(hay, needle, from) {
        } else {
            lemma_find_from_suffix(hay, needle, start, from + 1);
        }
    }
}

/// Splits `text` at each occurrence of `sep`. An empty `sep` occurs nowhere.
pub fn split(text: &[char], sep: &[char]) -> (parts: Vec<Vec<char>>)
    ensures
        views(parts@) == split_on(text@, sep@),
{
    let mut parts: Vec<Vec<char>> = Vec::new();
    if sep.len() == 0 {
        parts.push(copy_range(text, 0, text.len()));
        assert(text@.subrange(0, text.len() as int) =~= text@);
        assert(views(parts@) =~= seq![text@]);
        return parts;
    }
    let mut start: usize = 0;
    assert(text@.subrange(0, text.len() as int) =~= text@);
    assert(views(parts@) + split_on(text@, sep@) =~= split_on(text@, sep@));
    loop
        invariant
            sep.len() > 0,
            start <= text.len(),
            split_on(text@, sep@) == views(parts@) + split_on(
                text@.subrange(start as int, text.len() as int),
                sep@,
            ),
        decreases text.len() - start,
    {
        let ghost before = views(parts@);
        let ghost rest = text@.subrange(start as int, text.len() as int);
        proof {
            lemma_find_from(text@, sep@, start as int);
            lemma_find_from_suffix(text@, sep@, start as int, start as int);
        }
        match find(text, sep, start) {
            None => {
                let piece = copy_range(text, start, text.len());
                parts.push(piece);
                assert(views(parts@) =~= before + seq![rest]);
                return parts;
            },
            Some(at) => {
                let piece = copy_range(text, start, at);
                parts.push(piece);
                proof {
                    let head = text@.subrange(start as int, at as int);
                    let tail = text@.subrange(at + sep.len(), text.len() as int);
                    assert(rest.subrange(0, at - start) =~= head);
                    assert(rest.subrange(at - start + sep.len(), rest.len() as int) =~= tail);
                    assert(views(parts@) =~= before + seq![head]);
                    assert(before + (seq![head] + split_on(tail, sep@)) =~= (before + seq![head])
                        + split_on(tail, sep@));
                }
                start = at + sep.len();
            },
        }
    }
}

/// `prefix` stands at the very start of `hay`.
pub open spec fn starts_with(hay: Seq<char>, prefix: Seq<char>) -> bool {
    occurs_at(hay, prefix, 0)
}

/// The lower-case form of an ASCII capital letter; any other character is left as it is.
pub open spec fn lower(c: char) -> char {
    if 'A' <= c <= 'Z' {
        ((c as u32) + 32) as char
    } else {
        c
    }
}

/// `s` with each ASCII capital letter replaced by its lower-case form.
pub open spec fn lowered(s: Seq<char>) -> Seq<char> {
    Seq::new(s.len(), |i: int| lower(s[i]))
}

/// `a` and `b` are equal up to the case of ASCII letters.
pub open spec fn eq_ignore_case(a: Seq<char>, b: Seq<char>) -> bool {
    lowered(a) == lowered(b)
}

/// Lowering distributes over concatenation.
pub proof fn lemma_lowered_concat(a: Seq<char>, b: Seq<char>)
    ensures
        lowered(a + b) == lowered(a) + lowered(b),
{
    assert(lowered(a + b) =~= lowered(a) + lowered(b));
}

/// The lower-case form of `c` where it is an ASCII capital letter, else `c`.
pub fn to_lower(c: char) -> (r: char)
    ensures
        r == lower(c),
{
    if 'A' <= c && c <= 'Z' {
        ((c as u8) + 32) as char
    } else {
        c
    }
}

/// `chars` with each ASCII capital letter replaced by its lower-case form.
pub fn lower_all(chars: &[char]) -> (v: Vec<char>)
    ensures
        v@ == lowered(chars@),
{
    let mut v: Vec<char> = Vec::new();
    let mut i: usize = 0;
    while i < chars.len()
        invariant
            i <= chars.len(),
            v@ == lowered(chars@.take(i as int)),
        decreases chars.len() - i,
    {
        v.push(to_lower(chars[i]));
        i += 1;
        assert(v@ =~= lowered(chars@.take(i as int)));
    }
    assert(chars@.take(chars.len() as int) =~= chars@);
    v
}

/// Whether `a` and `b` hold the same characters.
pub fn same_chars(a: &[char], b: &[char]) -> (r: bool)
    ensures
        r == (a@ == b@),
{
    if a.len() != b.len() {
        return false;
    }
    let r = matches_at(a, b, 0);
    assert(a@.subrange(0, a.len() as int) =~= a@);
    r
}

/// Whether `a` and `b` are equal up to the case of ASCII letters.
pub fn same_ignoring_case(a: &[char], b: &[char]) -> (r: bool)
    ensures
        r == eq_ignore_case(a@, b@),
{
    let la = lower_all(a);
    let lb = lower_all(b);
    same_chars(la.as_slice(), lb.as_slice())
}

/// `c` has the Unicode property White_Space.
pub open spec fn is_white_space(c: char) -> bool {
    let n = c as u32;
    ||| 0x09 <= n <= 0x0D
    ||| n == 0x20
    ||| n == 0x85
    ||| n == 0xA0
    ||| n == 0x1680
    ||| 0x2000 <= n <= 0x200A
    ||| n == 0x2028
    ||| n == 0x2029
    ||| n == 0x202F
    ||| n == 0x205F
    ||| n == 0x3000
}

/// Whether `c` has the Unicode property White_Space.
pub fn is_space(c: char) -> (r: bool)
    ensures
        r == is_white_space(c),
{
    let n: u32 = c as u32;
    (0x09 <= n && n <= 0x0D) || n == 0x20 || n == 0x85 || n == 0xA0 || n == 0x1680 || (0x2000 <= n
        && n <= 0x200A) || n == 0x2028 || n == 0x2029 || n == 0x202F || n == 0x205F || n == 0x3000
}

/// `s` without the white space at its start.
pub open spec fn trim_start(s: Seq<char>) -> Seq<char>
    decreases s.len(),
{
    if s.len() > 0 && is_white_space(s.first()) {
        trim_start(s.drop_first())
    } else {
        s
    }
}

/// `s` without the white space at its end.
pub open spec fn trim_end(s: Seq<char>) -> Seq<char>
    decreases s.len(),
{
    if s.len() > 0 && is_white_space(s.last()) {
        trim_end(s.drop_last())
    } else {
        s
    }
}

/// `s` without the white space at its start and at its end.
pub open spec fn trimmed(s: Seq<char>) -> Seq<char> {
    trim_end(trim_start(s))
}

/// What is left of `s` after trimming its start is empty or begins with a character that
/// is no white space, and it is the end of `s`.
pub proof fn lemma_trim_start(s: Seq<char>)
    ensures
        trim_start(s).len() <= s.len(),
        trim_start(s) == s.subrange(s.len() - trim_start(s).len(), s.len() as int),
        trim_start(s).len() > 0 ==> !is_white_space(trim_start(s).first()),
    decreases s.len(),
{
    if s.len() > 0 && is_white_space(s.first()) {
        lemma_trim_start(s.drop_first());
        assert(trim_start(s) =~= s.subrange(s.len() - trim_start(s).len(), s.len() as int));
    } else {
        assert(s =~= s.subrange(0, s.len() as int));
    }
}

/// What is left of `s` after trimming its end is empty or ends with a character that is no
/// white space, and it is the start of `s`.
pub proof fn lemma_trim_end(s: Seq<char>)
    ensures
        trim_end(s).len() <= s.len(),
        trim_end(s) == s.subrange(0, trim_end(s).len() as int),
        trim_end(s).len() > 0 ==> !is_white_space(trim_end(s).last()),
    decreases s.len(),
{
    if s.len() > 0 && is_white_space(s.last()) {
        lemma_trim_end(s.drop_last());
        assert(trim_end(s) =~= s.subrange(0, trim_end(s).len() as int));
    } else {
        assert(s =~= s.subrange(0, s.len() as int));
    }
}

/// Trimmed text is empty, or begins and ends with characters that are no white space.
pub proof fn lemma_trimmed(s: Seq<char>)
    ensures
        trimmed(s).len() > 0 ==> !is_white_space(trimmed(s).first()) && !is_white_space(
            trimmed(s).last(),
        ),
{
    lemma_trim_start(s);
    lemma_trim_end(trim_start(s));
}

/// `chars` without the white space at its start and at its end.
pub fn trim(chars: &[char]) -> (v: Vec<char>)
    ensures
        v@ == trimmed(chars@),
{
    let n: usize = chars.len();
    let mut a: usize = 0;
    assert(chars@.subrange(0, n as int) =~= chars@);
    while a < n && is_space(chars[a])
        invariant
            a <= n,
            n == chars.len(),
            trim_start(chars@) == trim_start(chars@.subrange(a as int, n as int)),
        decreases n - a,
    {
        assert(chars@.subrange(a as int, n as int).drop_first() =~= chars@.subrange(
            a + 1,
            n as int,
        ));
        a += 1;
    }
    let mut b: usize = n;
    while b > a && is_space(chars[b - 1])
        invariant
            a <= b <= n,
            n == chars.len(),
            trim_end(chars@.subrange(a as int, n as int)) == trim_end(
                chars@.subrange(a as int, b as int),
            ),
        decreases b - a,
    {
        assert(chars@.subrange(a as int, b as int).drop_last() =~= chars@.subrange(
            a as int,
            b - 1,
        ));
        b -= 1;
    }
    copy_range(chars, a, b)
}

} // verus!
