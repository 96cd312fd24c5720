//! Paths of the files that a download produces.
use vstd::prelude::*;
use crate::text::push_char;

verus! {

pub open spec fn json_ext() -> Seq<char> {
    seq!['.', 'j', 's', 'o', 'n']
}

/// A name that ends in one of the recognised media extensions.
pub open spec fn has_media_ext(f: Seq<char>) -> bool {
    let tail = f.skip(f.len() - 4);
    &&& f.len() >= 4
    &&& (tail == seq!['.', 'm', 'p', '3'] || tail == seq!['.', 'm', '4', 'a'] || tail
        == seq!['.', 'w', 'a', 'v'])
}

/// The metadata file name for a media file name: a trailing `.mp3`, `.m4a`
/// or `.wav` becomes `.json`; any other name gets `.json` appended.
pub open spec fn metadata_name(f: Seq<char>) -> Seq<char> {
    if has_media_ext(f) {
        f.take(f.len() - 4) + json_ext()
    } else {
        f + json_ext()
    }
}

/// `dir/name`.
pub open spec fn joined(dir: Seq<char>, name: Seq<char>) -> Seq<char> {
    dir + seq!['/'] + name
}

fn matches_at(s: &str, n: usize, i: usize, pat: &str, m: usize) -> (r: bool)
    requires
        n == s@.len(),
        m == pat@.len(),
        i <= n,
    ensures
        r == (i + m <= n && s@.subrange(i as int, i + m) == pat@),
{
    if m > n - i {
        return false;
    }
    let mut j: usize = 0;
    while j < m
        invariant
            n == s@.len(),
            m == pat@.len(),
            i + m <= n,
            j <= m,
            forall|k: int| 0 <= k < j ==> s@[i + k] == pat@[k],
        decreases m - j,
    {
        if s.get_char(i + j) != pat.get_char(j) {
            assert(s@.subrange(i as int, i + m)[j as int] != pat@[j as int]);
            return false;
        }
        j = j + 1;
    }
    assert(s@.subrange(i as int, i + m) =~= pat@);
    true
}

/// The name of the metadata file that belongs to a media file name. It is
/// never the media file name itself.
pub fn metadata_filename(filename: &str) -> (r: String)
    ensures
        r@ == metadata_name(filename@),
        r@ != filename@,
{
    proof {
        reveal_strlit(".mp3");
        reveal_strlit(".m4a");
        reveal_strlit(".wav");
        reveal_strlit(".json");
        assert(".mp3"@ =~= seq!['.', 'm', 'p', '3']);
        assert(".m4a"@ =~= seq!['.', 'm', '4', 'a']);
        assert(".wav"@ =~= seq!['.', 'w', 'a', 'v']);
        assert(".json"@ =~= json_ext());
    }
    let n = filename.unicode_len();
    let media = n >= 4 && (matches_at(filename, n, n - 4, ".mp3", 4) || matches_at(
        filename,
        n,
        n - 4,
        ".m4a",
        4,
    ) || matches_at(filename, n, n - 4, ".wav", 4));
    proof {
        if n >= 4 {
            assert(filename@.subrange(n - 4, n as int) =~= filename@.skip(n - 4));
        }
    }
    let mut out = if media {
        String::from_str(filename.substring_char(0, n - 4))
    } else {
        String::from_str(filename)
    };
    out.append(".json");
    proof {
        if media {
            assert(filename@.subrange(0, n - 4) =~= filename@.take(n - 4));
        }
        assert(out@.len() != filename@.len());
    }
    out
}

/// `dir/name`.
pub fn join_path(dir: &str, name: &str) -> (r: String)
    ensures
        r@ == joined(dir@, name@),
{
    let mut out = String::from_str(dir);
    push_char(&mut out, '/');
    out.append(name);
    out
}

} // verus!
