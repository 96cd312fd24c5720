//! Episodes of a feed and the metadata record kept for each.
use vstd::prelude::*;

verus! {

/// One item of a podcast feed, as the feed reader hands it over.
#[derive(Clone, Debug)]
pub struct Episode {
    pub title: Option<String>,
    pub link: Option<String>,
    pub description: Option<String>,
    pub author: Option<String>,
    pub categories: Vec<String>,
    pub enclosure_url: Option<String>,
    pub guid: Option<String>,
    pub pub_date: Option<String>,
    pub duration: Option<String>,
}

/// A parsed feed: its title and its items in feed order.
#[derive(Clone, Debug)]
pub struct Feed {
    pub title: String,
    pub episodes: Vec<Episode>,
}

/// The flat record written beside a downloaded episode.
#[derive(Clone, Debug)]
pub struct EpisodeMetadata {
    pub title: String,
    pub description: Option<String>,
    pub pub_date: Option<String>,
    pub duration: Option<String>,
    pub author: Option<String>,
    pub file_url: String,
    pub guid: Option<String>,
    pub link: Option<String>,
    pub categories: Vec<String>,
}

pub open spec fn unknown_title() -> Seq<char> {
    seq!['U', 'n', 'k', 'n', 'o', 'w', 'n', ' ', 'T', 'i', 't', 'l', 'e']
}

/// The text of an optional string, or `default` where it is absent.
pub open spec fn text_or(s: Option<String>, default: Seq<char>) -> Seq<char> {
    match s {
        Some(t) => t@,
        None => default,
    }
}

impl Episode {
    /// An episode can be downloaded only when it has an enclosure.
    pub open spec fn eligible(&self) -> bool {
        self.enclosure_url is Some
    }
}

fn clone_opt(s: &Option<String>) -> (r: Option<String>)
    ensures
        r == *s,
{
    match s {
        Some(t) => Some(t.clone()),
        None => None,
    }
}

fn clone_strings(v: &Vec<String>) -> (r: Vec<String>)
    ensures
        r@ == v@,
{
    let mut out: Vec<String> = Vec::new();
    let mut i: usize = 0;
    while i < v.len()
        invariant
            i <= v.len(),
            out@ == v@.take(i as int),
        decreases v.len() - i,
    {
        out.push(v[i].clone());
        i = i + 1;
        assert(out@ =~= v@.take(i as int));
    }
    assert(v@.take(v.len() as int) =~= v@);
    out
}

/// The metadata record of an episode: each field copied, the title
/// defaulting to `Unknown Title` and the file URL to the empty string.
pub fn extract_metadata(e: &Episode) -> (r: EpisodeMetadata)
    ensures
        r.title@ == text_or(e.title, unknown_title()),
        r.description == e.description,
        r.pub_date == e.pub_date,
        r.duration == e.duration,
        r.author == e.author,
        r.file_url@ == text_or(e.enclosure_url, Seq::empty()),
        r.guid == e.guid,
        r.link == e.link,
        r.categories@ == e.categories@,
{
    let title = match &e.title {
        Some(t) => t.clone(),
        None => String::from_str("Unknown Title"),
    };
    proof {
        reveal_strlit("Unknown Title");
        assert("Unknown Title"@ =~= unknown_title());
    }
    let file_url = match &e.enclosure_url {
        Some(u) => u.clone(),
        None => String::new(),
    };
    EpisodeMetadata {
        title,
        description: clone_opt(&e.description),
        pub_date: clone_opt(&e.pub_date),
        duration: clone_opt(&e.duration),
        author: clone_opt(&e.author),
        file_url,
        guid: clone_opt(&e.guid),
        link: clone_opt(&e.link),
        categories: clone_strings(&e.categories),
    }
}

} // verus!
