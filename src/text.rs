use vstd::prelude::*;

verus! {

/// Two characters that are equal once ASCII letters are folded to one case.
pub open spec fn same_char_ignoring_ascii_case(a: char, b: char) -> bool {
    ||| a == b
    ||| ('A' <= a <= 'Z' && b as u32 == a as u32 + 32)
    ||| ('A' <= b <= 'Z' && a as u32 == b as u32 + 32)
}

/// Two strings that are equal once ASCII letters are folded to one case.
pub open spec fn eq_ignoring_ascii_case(a: Seq<char>, b: Seq<char>) -> bool {
    &&& a.len() == b.len()
    &&& forall|i: int| 0 <= i < a.len() ==> same_char_ignoring_ascii_case(a[i], b[i])
}

/// The string values of a sequence of `String`s.
pub open spec fn views(s: Seq<String>) -> Seq<Seq<char>> {
    s.map_values(|x: String| x@)
}

/// Position of the first occurrence of `key` among `keys`, if it is there.
pub fn find(keys: &Vec<String>, key: &String) -> (r: Option<usize>)
    ensures
        match r {
            Some(i) => {
                &&& i < keys.len()
                &&& keys@[i as int]@ == key@
                &&& forall|j: int| 0 <= j < i ==> keys@[j]@ != key@
            },
            None => !views(keys@).contains(key@),
        },
        r is Some <==> views(keys@).contains(key@),
{
    let mut i: usize = 0;
    while i < keys.len()
        invariant
            0 <= i <= keys.len(),
            forall|j: int| 0 <= j < i ==> keys@[j]@ != key@,
        decreases keys.len() - i,
    {
        if keys[i] == *key {
            assert(views(keys@)[i as int] == key@);
            return Some(i);
        }
        i = i + 1;
    }
    assert forall|j: int| 0 <= j < keys@.len() implies views(keys@)[j] != key@ by {}
    None
}

/// The error of a parse that met a name it does not know.
#[derive(Debug, Clone, Copy, PartialEq, Eq, Structural)]
pub struct UnknownValue;

fn chars_match_ignoring_ascii_case(a: char, b: char) -> (r: bool)
    ensures
        r == same_char_ignoring_ascii_case(a, b),
{
    let x = a as u32;
    let y = b as u32;
    x == y || ('A' <= a && a <= 'Z' && y == x + 32) || ('A' <= b && b <= 'Z' && x == y + 32)
}

/// Compares `s` with `word`, folding ASCII letters to one case.
pub fn matches_ignoring_ascii_case(s: &str, word: &str) -> (r: bool)
    ensures
        r == eq_ignoring_ascii_case(s@, word@),
{
    let n = s.unicode_len();
    if n != word.unicode_len() {
        return false;
    }
    let mut i: usize = 0;
    while i < n
        invariant
            n == s@.len() == word@.len(),
            0 <= i <= n,
            forall|j: int| 0 <= j < i ==> same_char_ignoring_ascii_case(s@[j], word@[j]),
        decreases n - i,
    {
        if !chars_match_ignoring_ascii_case(s.get_char(i), word.get_char(i)) {
            return false;
        }
        i = i + 1;
    }
    true
}

} // verus!
