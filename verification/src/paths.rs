use vstd::prelude::*;

verus! {

/// The file name of a path: the characters after the last separator,
/// or the whole path when it has none.
pub open spec fn file_name_of(path: Seq<char>) -> Seq<char>
    decreases path.len(),
{
    if path.len() == 0 {
        path
    } else if path.last() == '/' {
        Seq::empty()
    } else {
        file_name_of(path.drop_last()).push(path.last())
    }
}

/// The extension of a file name: the characters after the last dot, where
/// that dot is neither the first character (a leading dot hides a file, it
/// does not start an extension) nor missing.
pub open spec fn extension_of(name: Seq<char>) -> Option<Seq<char>>
    decreases name.len(),
{
    if name.len() == 0 {
        None
    } else if name.last() == '.' {
        if name.len() == 1 {
            None
        } else {
            Some(Seq::empty())
        }
    } else {
        match extension_of(name.drop_last()) {
            Some(e) => Some(e.push(name.last())),
            None => None,
        }
    }
}

/// The archive container extensions this library accepts.
pub open spec fn recognized_extension(e: Seq<char>) -> bool {
    e == "zip"@ || e == "cbz"@ || e == "rar"@ || e == "cbr"@
}

/// Whether a path names a supported archive container.
pub open spec fn supported_path(path: Seq<char>) -> bool {
    match extension_of(file_name_of(path)) {
        Some(e) => recognized_extension(e),
        None => false,
    }
}

/// The file name is the suffix that starts right after the last separator.
proof fn lemma_file_name_suffix(s: Seq<char>, i: int)
    requires
        0 <= i <= s.len(),
        forall|k: int| i <= k < s.len() ==> s[k] != '/',
        i == 0 || s[i - 1] == '/',
    ensures
        file_name_of(s) == s.skip(i),
    decreases s.len() - i,
{
    if i == s.len() {
        if i == 0 {
            assert(s.skip(0) =~= s);
        } else {
            assert(s.last() == '/');
            assert(file_name_of(s) =~= s.skip(i));
        }
    } else {
        assert(s.last() != '/');
        lemma_file_name_suffix(s.drop_last(), i);
        assert(file_name_of(s) == file_name_of(s.drop_last()).push(s.last()));
        assert(s.drop_last().skip(i).push(s.last()) =~= s.skip(i));
    }
}

/// A name whose only dot, if any, is its first character has no extension.
proof fn lemma_extension_none(s: Seq<char>)
    requires
        forall|k: int| 1 <= k < s.len() ==> s[k] != '.',
    ensures
        extension_of(s) is None,
    decreases s.len(),
{
    if s.len() == 0 {
    } else if s.last() == '.' {
        assert(s.len() == 1);
    } else {
        lemma_extension_none(s.drop_last());
    }
}

/// When the last dot stands at index `j - 1 >= 1`, the extension is the
/// suffix that starts at `j`.
proof fn lemma_extension_suffix(s: Seq<char>, j: int)
    requires
        2 <= j <= s.len(),
        s[j - 1] == '.',
        forall|k: int| j <= k < s.len() ==> s[k] != '.',
    ensures
        extension_of(s) == Some(s.skip(j)),
    decreases s.len() - j,
{
    if j == s.len() {
        assert(s.last() == '.');
        assert(s.skip(j) =~= Seq::<char>::empty());
    } else {
        assert(s.last() != '.');
        lemma_extension_suffix(s.drop_last(), j);
        assert(s.drop_last().skip(j).push(s.last()) =~= s.skip(j));
    }
}

/// Extracts a path's file name, the title a comic carries.
pub fn file_title(path: &str) -> (r: String)
    ensures
        r@ == file_name_of(path@),
{
    let len = path.unicode_len();
    let mut i: usize = len;
    while i > 0 && path.get_char(i - 1) != '/'
        invariant
            i <= len,
            len == path@.len(),
            forall|k: int| i <= k < len ==> path@[k] != '/',
        decreases i,
    {
        i = i - 1;
    }
    proof {
        lemma_file_name_suffix(path@, i as int);
        assert(path@.subrange(i as int, len as int) =~= path@.skip(i as int));
    }
    path.substring_char(i, len).to_owned()
}

/// Decides whether a path names a supported archive container, from the
/// path alone: no file is touched.
pub fn path_supported(path: &str) -> (r: bool)
    ensures
        r == supported_path(path@),
{
    let name = file_title(path);
    let name_str = name.as_str();
    let nlen = name_str.unicode_len();
    let mut j: usize = nlen;
    while j > 0 && name_str.get_char(j - 1) != '.'
        invariant
            j <= nlen,
            nlen == name@.len(),
            name@ == file_name_of(path@),
            name_str@ == name@,
            forall|k: int| j <= k < nlen ==> name@[k] != '.',
        decreases j,
    {
        j = j - 1;
    }
    if j <= 1 {
        proof {
            lemma_extension_none(name@);
        }
        false
    } else {
        proof {
            lemma_extension_suffix(name@, j as int);
            assert(name@.subrange(j as int, nlen as int) =~= name@.skip(j as int));
        }
        let e = name_str.substring_char(j, nlen).to_owned();
        e == ("zip").to_owned() || e == ("cbz").to_owned() || e == ("rar").to_owned() || e == (
        "cbr").to_owned()
    }
}

} // verus!
