use vstd::prelude::*;

verus! {

/// Index of the last `'.'` in `s`, or `-1` when `s` holds none.
pub open spec fn last_dot(s: Seq<char>) -> int
    decreases s.len(),
{
    if s.len() == 0 {
        -1
    } else if s.last() == '.' {
        s.len() - 1
    } else {
        last_dot(s.drop_last())
    }
}

proof fn lemma_last_dot(s: Seq<char>)
    ensures
        -1 <= last_dot(s) < s.len(),
        last_dot(s) >= 0 ==> s[last_dot(s)] == '.',
        forall|j: int| last_dot(s) < j < s.len() ==> s[j] != '.',
    decreases s.len(),
{
    if s.len() > 0 && s.last() != '.' {
        let t = s.drop_last();
        lemma_last_dot(t);
        assert forall|j: int| last_dot(s) < j < s.len() implies s[j] != '.' by {
            if j < t.len() {
                assert(s[j] == t[j]);
            }
        }
    }
}

/// Finds the last `'.'` of `name`.
fn find_last_dot(name: &str) -> (r: Option<usize>)
    ensures
        match r {
            Some(i) => i == last_dot(name@),
            None => last_dot(name@) == -1,
        },
{
    let n = name.unicode_len();
    let mut i: usize = n;
    assert(name@.subrange(0, n as int) =~= name@);
    while i > 0
        invariant
            i <= n,
            n == name@.len(),
            last_dot(name@) == last_dot(name@.subrange(0, i as int)),
        decreases i,
    {
        let c = name.get_char(i - 1);
        let ghost pre = name@.subrange(0, i as int);
        assert(pre.drop_last() =~= name@.subrange(0, i - 1));
        if c == '.' {
            return Some(i - 1);
        }
        i = i - 1;
    }
    None
}

/// Whether `s` splits into a stem and an extension: it has a `'.'` that is
/// not its first character. A name with no `'.'`, or whose only `'.'` leads
/// it (a hidden file such as `.profile`), has no extension.
pub open spec fn has_extension(s: Seq<char>) -> bool {
    last_dot(s) > 0
}

/// The stem of a file name, as `std::path::Path::file_stem` documents it: the
/// part before the last `'.'`, or the whole name where it has no extension.
pub open spec fn stem_of(s: Seq<char>) -> Seq<char> {
    if has_extension(s) {
        s.subrange(0, last_dot(s))
    } else {
        s
    }
}

/// The extension of a file name, as `std::path::Path::extension` documents
/// it: the part after the last `'.'`, which may be empty (`"a."`).
pub open spec fn extension_of(s: Seq<char>) -> Option<Seq<char>> {
    if has_extension(s) {
        Some(s.subrange(last_dot(s) + 1, s.len() as int))
    } else {
        None
    }
}

/// The stem of the file name `name` (for a name from a directory listing,
/// which is never `"."` or `".."`).
pub fn file_stem(name: &str) -> (r: String)
    ensures
        r@ == stem_of(name@),
{
    proof {
        lemma_last_dot(name@);
    }
    match find_last_dot(name) {
        Some(i) if i > 0 => String::from_str(name.substring_char(0, i)),
        _ => String::from_str(name),
    }
}

/// The extension of the file name `name`, if it has one.
pub fn extension(name: &str) -> (r: Option<String>)
    ensures
        match r {
            Some(e) => extension_of(name@) == Some(e@),
            None => extension_of(name@) is None,
        },
{
    proof {
        lemma_last_dot(name@);
    }
    let n = name.unicode_len();
    match find_last_dot(name) {
        Some(i) if i > 0 => Some(String::from_str(name.substring_char(i + 1, n))),
        _ => None,
    }
}

} // verus!
