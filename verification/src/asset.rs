//! Names for a scene file that is fetched from a web address.

use vstd::prelude::*;
use vstd::string::StrSliceExecFns;
use vstd::string::StringExecFns;

verus! {

/// Where the last segment of an address begins: behind its last slash, or
/// at the front where it has none.
pub open spec fn segment_start(url: Seq<char>) -> int
    decreases url.len(),
{
    if url.len() == 0 {
        0
    } else if url.last() == '/' {
        url.len() as int
    } else {
        segment_start(url.drop_last())
    }
}

/// The last segment of an address: what follows its last slash, or all of
/// it where it has none.
pub open spec fn last_segment(url: Seq<char>) -> Seq<char> {
    url.subrange(segment_start(url), url.len() as int)
}

/// The extension of a binary glTF file.
pub open spec fn glb_extension() -> Seq<char> {
    seq!['.', 'g', 'l', 'b']
}

/// `name` ends in the extension of a binary glTF file.
pub open spec fn has_glb_extension(name: Seq<char>) -> bool {
    name.len() >= 4 && name.subrange(name.len() - 4, name.len() as int) == glb_extension()
}

/// The file name under which the scene at `url` is stored: the address's
/// last segment, with the extension added unless it is there.
pub open spec fn file_name_of(url: Seq<char>) -> Seq<char> {
    if has_glb_extension(last_segment(url)) {
        last_segment(url)
    } else {
        last_segment(url) + glb_extension()
    }
}

/// The path by which the asset server finds the first scene of the stored
/// file.
pub open spec fn asset_path_of(file_name: Seq<char>) -> Seq<char> {
    seq!['d', 'o', 'w', 'n', 'l', 'o', 'a', 'd', 'e', 'd', '/'] + file_name + seq![
        '#',
        'S',
        'c',
        'e',
        'n',
        'e',
        '0',
    ]
}

/// An index behind which no slash follows, and which is 0 or stands right
/// behind a slash, is where the last segment begins.
pub proof fn lemma_segment_start_is(url: Seq<char>, start: int, end: int)
    requires
        0 <= start <= end <= url.len(),
        start == 0 || url[start - 1] == '/',
        forall|j: int| start <= j < url.len() ==> url[j] != '/',
    ensures
        segment_start(url.take(end)) == start,
    decreases end - start,
{
    let prefix = url.take(end);
    if end == start {
        if start > 0 {
            assert(prefix.last() == url[start - 1]);
        }
    } else {
        assert(prefix.last() == url[end - 1]);
        assert(prefix.drop_last() =~= url.take(end - 1));
        lemma_segment_start_is(url, start, end - 1);
    }
}

/// Finds where the last segment of `url` begins.
fn find_segment_start(url: &str) -> (start: usize)
    ensures
        start as int == segment_start(url@),
        start <= url@.len(),
{
    let len: usize = url.unicode_len();
    let mut start: usize = len;
    while start > 0 && url.get_char(start - 1) != '/'
        invariant
            start <= len,
            len == url@.len(),
            forall|j: int| start <= j < len ==> url@[j] != '/',
        decreases start,
    {
        start = start - 1;
    }
    proof {
        lemma_segment_start_is(url@, start as int, len as int);
        assert(url@.take(len as int) =~= url@);
    }
    start
}

/// Tells whether `name` ends in the extension of a binary glTF file.
fn ends_with_glb(name: &str) -> (r: bool)
    ensures
        r == has_glb_extension(name@),
{
    let len: usize = name.unicode_len();
    if len < 4 {
        return false;
    }
    let matches = name.get_char(len - 4) == '.' && name.get_char(len - 3) == 'g' && name.get_char(
        len - 2,
    ) == 'l' && name.get_char(len - 1) == 'b';
    proof {
        let tail = name@.subrange(len - 4, len as int);
        if matches {
            assert(tail =~= glb_extension());
        } else {
            assert(tail[0] == name@[len - 4]);
            assert(tail[1] == name@[len - 3]);
            assert(tail[2] == name@[len - 2]);
            assert(tail[3] == name@[len - 1]);
        }
    }
    matches
}

/// The file name under which the scene at `url` is stored.
pub fn scene_file_name(url: &str) -> (name: String)
    ensures
        name@ == file_name_of(url@),
{
    let start: usize = find_segment_start(url);
    let segment = url.substring_char(start, url.unicode_len());
    if ends_with_glb(segment) {
        String::from_str(segment)
    } else {
        proof {
            reveal_strlit(".glb");
            assert(".glb"@ =~= glb_extension());
        }
        String::from_str(segment).concat(".glb")
    }
}

/// The path by which the asset server finds the first scene of the file
/// stored under `file_name`.
pub fn scene_asset_path(file_name: &str) -> (path: String)
    ensures
        path@ == asset_path_of(file_name@),
{
    proof {
        reveal_strlit("downloaded/");
        reveal_strlit("#Scene0");
        assert("downloaded/"@ =~= seq!['d', 'o', 'w', 'n', 'l', 'o', 'a', 'd', 'e', 'd', '/']);
        assert("#Scene0"@ =~= seq!['#', 'S', 'c', 'e', 'n', 'e', '0']);
    }
    String::from_str("downloaded/").concat(file_name).concat("#Scene0")
}

} // verus!
