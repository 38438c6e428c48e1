//! File names and paths as texts: decimal numbers, joining a directory and a name, and the
//! extension of a path.
use vstd::prelude::*;
use vstd::string::{StrSliceExecFns, StringExecFns};

verus! {

/// The text of one decimal digit.
pub open spec fn digit_text(d: nat) -> Seq<char> {
    if d == 0 {
        "0"@
    } else if d == 1 {
        "1"@
    } else if d == 2 {
        "2"@
    } else if d == 3 {
        "3"@
    } else if d == 4 {
        "4"@
    } else if d == 5 {
        "5"@
    } else if d == 6 {
        "6"@
    } else if d == 7 {
        "7"@
    } else if d == 8 {
        "8"@
    } else {
        "9"@
    }
}

/// The decimal text of a number, without leading zeros.
pub open spec fn decimal(n: nat) -> Seq<char>
    decreases n,
{
    if n < 10 {
        digit_text(n)
    } else {
        decimal(n / 10) + digit_text(n % 10)
    }
}

/// A directory and a file name as one path: the name alone where the directory is empty, else
/// the directory, a `/` unless the directory ends in one, and the name.
pub open spec fn join_path(dir: Seq<char>, name: Seq<char>) -> Seq<char> {
    if dir.len() == 0 {
        name
    } else if dir.last() == '/' {
        dir + name
    } else {
        dir + "/"@ + name
    }
}

/// Going back from position `i`, where the extension of a path starts: just behind the last
/// `.` of the last component. `None` where a `/` or the start of the path comes first.
pub open spec fn extension_start(path: Seq<char>, i: int) -> Option<int>
    decreases i,
{
    if i <= 0 || i > path.len() {
        None
    } else if path[i - 1] == '/' {
        None
    } else if path[i - 1] == '.' {
        Some(i)
    } else {
        extension_start(path, i - 1)
    }
}

/// Going back from position `i`, where the last component of a path ends: before the `/`
/// characters that stand at the end.
pub open spec fn component_end(path: Seq<char>, i: int) -> int
    decreases i,
{
    if i <= 0 || i > path.len() {
        0
    } else if path[i - 1] == '/' {
        component_end(path, i - 1)
    } else {
        i
    }
}

/// The extension of a path: what follows the last `.` of its last component, unless that `.`
/// is the first character of the component. A `/` at the end of the path does not count.
pub open spec fn path_extension(path: Seq<char>) -> Option<Seq<char>> {
    let end = component_end(path, path.len() as int);
    match extension_start(path, end) {
        Some(i) => if i >= 2 && path[i - 2] != '/' {
            Some(path.subrange(i, end))
        } else {
            None
        },
        None => None,
    }
}

fn digit_str(d: usize) -> (r: &'static str)
    requires
        d < 10,
    ensures
        r@ == digit_text(d as nat),
{
    if d == 0 {
        "0"
    } else if d == 1 {
        "1"
    } else if d == 2 {
        "2"
    } else if d == 3 {
        "3"
    } else if d == 4 {
        "4"
    } else if d == 5 {
        "5"
    } else if d == 6 {
        "6"
    } else if d == 7 {
        "7"
    } else if d == 8 {
        "8"
    } else {
        "9"
    }
}

/// The decimal text of a number.
pub fn decimal_text(n: usize) -> (r: String)
    ensures
        r@ == decimal(n as nat),
    decreases n,
{
    let digit = digit_str(n % 10);
    if n < 10 {
        String::from_str(digit)
    } else {
        let mut text = decimal_text(n / 10);
        text.append(digit);
        text
    }
}

/// The path of a file in a directory.
pub fn join(dir: &str, name: &str) -> (r: String)
    ensures
        r@ == join_path(dir@, name@),
{
    let len = dir.unicode_len();
    if len == 0 {
        String::from_str(name)
    } else {
        let mut path = String::from_str(dir);
        if dir.get_char(len - 1) != '/' {
            path.append("/");
        }
        path.append(name);
        path
    }
}

/// Whether the path has the given extension.
pub fn check_extension(path: &str, extension: &str) -> (r: bool)
    ensures
        r == (path_extension(path@) == Some(extension@)),
{
    let len = path.unicode_len();
    let mut end: usize = len;
    while end > 0 && path.get_char(end - 1) == '/'
        invariant
            end <= len,
            len == path@.len(),
            component_end(path@, len as int) == component_end(path@, end as int),
        decreases end,
    {
        end = end - 1;
    }
    assert(component_end(path@, len as int) == end);
    let mut i: usize = end;
    while i > 0
        invariant
            i <= end <= len,
            len == path@.len(),
            component_end(path@, len as int) == end,
            extension_start(path@, end as int) == extension_start(path@, i as int),
        decreases i,
    {
        let c = path.get_char(i - 1);
        if c == '/' {
            return false;
        }
        if c == '.' {
            if i >= 2 && path.get_char(i - 2) != '/' {
                let found = path.substring_char(i, end);
                let wanted = extension.to_owned();
                return found.to_owned() == wanted;
            } else {
                return false;
            }
        }
        i = i - 1;
    }
    false
}

/// Whether a character is neither a `/` nor a `.`.
pub open spec fn is_plain(c: char) -> bool {
    c != '/' && c != '.'
}

/// Going back over plain characters does not change where the extension starts.
proof fn lemma_scan_plain(path: Seq<char>, lo: int, hi: int)
    requires
        0 <= lo <= hi <= path.len(),
        forall|j: int| lo <= j < hi ==> is_plain(#[trigger] path[j]),
    ensures
        extension_start(path, hi) == extension_start(path, lo),
    decreases hi - lo,
{
    if lo < hi {
        assert(is_plain(path[hi - 1]));
        lemma_scan_plain(path, lo, hi - 1);
    }
}

/// A path that ends in a plain character, a `.` and a word of plain characters has the word
/// as its extension.
pub proof fn lemma_extension_of(stem: Seq<char>, word: Seq<char>)
    requires
        stem.len() >= 1,
        stem.last() != '/',
        forall|j: int| 0 <= j < word.len() ==> is_plain(#[trigger] word[j]),
    ensures
        path_extension(stem + seq!['.'] + word) == Some(word),
{
    let path = stem + seq!['.'] + word;
    let dot = stem.len() as int;
    assert forall|j: int| dot + 1 <= j < path.len() implies is_plain(#[trigger] path[j]) by {
        assert(path[j] == word[j - dot - 1]);
    }
    assert(path[path.len() - 1] != '/') by {
        if word.len() > 0 {
            assert(is_plain(path[path.len() - 1]));
        }
    }
    assert(component_end(path, path.len() as int) == path.len());
    lemma_scan_plain(path, dot + 1, path.len() as int);
    assert(path[dot] == '.');
    assert(path[dot - 1] == stem.last());
    assert(path.subrange(dot + 1, path.len() as int) =~= word);
}

/// The decimal text of a number is not empty and ends in a digit, which is a plain character
/// and no `/`.
pub proof fn lemma_decimal_end(n: nat)
    ensures
        decimal(n).len() >= 1,
        decimal(n).last() != '/',
{
    reveal_strlit("0");
    reveal_strlit("1");
    reveal_strlit("2");
    reveal_strlit("3");
    reveal_strlit("4");
    reveal_strlit("5");
    reveal_strlit("6");
    reveal_strlit("7");
    reveal_strlit("8");
    reveal_strlit("9");
    let d = digit_text(n % 10);
    assert(d.len() == 1 && d[0] != '/');
    if n >= 10 {
        assert(decimal(n) == decimal(n / 10) + d);
        assert(decimal(n).last() == d[0]);
    } else {
        assert(decimal(n) == d);
    }
}

/// Joining a directory and a name that ends in a stem, a `.` and a word of plain characters
/// gives a path with the word as its extension.
pub proof fn lemma_joined_extension(dir: Seq<char>, stem: Seq<char>, word: Seq<char>)
    requires
        stem.len() >= 1,
        stem.last() != '/',
        forall|j: int| 0 <= j < word.len() ==> is_plain(#[trigger] word[j]),
    ensures
        path_extension(join_path(dir, stem + seq!['.'] + word)) == Some(word),
{
    let name = stem + seq!['.'] + word;
    if dir.len() == 0 {
        lemma_extension_of(stem, word);
    } else if dir.last() == '/' {
        lemma_extension_of(dir + stem, word);
        assert(dir + name =~= (dir + stem) + seq!['.'] + word);
    } else {
        lemma_extension_of(dir + "/"@ + stem, word);
        assert(dir + "/"@ + name =~= (dir + "/"@ + stem) + seq!['.'] + word);
    }
}

} // verus!
