//! Merging feed entries into the registry.
//!
//! An entry is a candidate when it is dated after the registry's watermark
//! and its title holds a bracketed tag. Its status comes from the tags, its
//! name from the rest of the title, and its identifier from its link; a thread
//! already in the registry is left as it is.
use vstd::prelude::*;
use vstd::string::StringExecFns;
use crate::error::{FilError, FilErrorView};
use crate::fields::{Pole, Status};
use crate::fil::{opt_view, Fil, FilView};
use crate::ident::{find_id, url_id};
use crate::registry::{count_named, has_id, Registry, RegistryView};
use crate::text::{contains, decimal, decimal_string, owned, seq_contains};

verus! {

/// What the regex crate captures in group 1 of every successive match of
/// `pattern` in `text`; `None` when `pattern` does not compile.
pub uninterp spec fn all_captures_of(pattern: Seq<char>, text: Seq<char>) -> Option<Seq<Seq<char>>>;

/// What the regex crate captures in group 1 of the first match of `pattern`
/// in `text`; `None` when `pattern` does not compile, nothing matches, or the
/// group takes no part in the match.
pub uninterp spec fn first_capture_of(pattern: Seq<char>, text: Seq<char>) -> Option<Seq<char>>;

/// The Unix time, in seconds, of an RFC 2822 date, as chrono reads it.
pub uninterp spec fn rfc2822_seconds_of(s: Seq<char>) -> Option<i64>;

/// The lower case of a string, as std computes it.
pub uninterp spec fn lower_of(s: Seq<char>) -> Seq<char>;

/// The items of an RSS document, as the rss crate reads them: title,
/// publication date and link of each.
pub uninterp spec fn feed_items_of(bytes: Seq<u8>) -> Option<Seq<ItemView>>;

pub type ItemView = (Option<Seq<char>>, Option<Seq<char>>, Option<Seq<char>>);

pub open spec fn strings_view(v: Seq<String>) -> Seq<Seq<char>> {
    v.map_values(|s: String| s@)
}

/// One item of a feed.
#[derive(Clone, Debug)]
pub struct FeedItem {
    pub title: Option<String>,
    pub pub_date: Option<String>,
    pub link: Option<String>,
}

pub open spec fn item_view(i: FeedItem) -> ItemView {
    (opt_view(i.title), opt_view(i.pub_date), opt_view(i.link))
}

pub open spec fn items_view(v: Seq<FeedItem>) -> Seq<ItemView> {
    v.map_values(|i: FeedItem| item_view(i))
}

/// Relies on `regex::Regex::captures_iter`: group 1 of each successive match
/// (an empty string where the group takes no part).
#[verifier::external_body]
fn all_captures(pattern: &str, text: &str) -> (r: Option<Vec<String>>)
    ensures
        match r {
            Some(v) => all_captures_of(pattern@, text@) == Some(strings_view(v@)),
            None => all_captures_of(pattern@, text@).is_none(),
        },
{
    regex::Regex::new(pattern).ok().map(
        |re|
            re.captures_iter(text).map(
                |c| c.get(1).map_or(String::new(), |m| m.as_str().to_string()),
            ).collect(),
    )
}

/// Relies on `regex::Regex::captures`: group 1 of the first match.
#[verifier::external_body]
pub(crate) fn first_capture(pattern: &str, text: &str) -> (r: Option<String>)
    ensures
        opt_view(r) == first_capture_of(pattern@, text@),
{
    regex::Regex::new(pattern).ok().and_then(|re| re.captures(text)).and_then(|c| c.get(1)).map(
        |m| m.as_str().to_string(),
    )
}

/// Relies on `chrono::DateTime::parse_from_rfc2822` and `DateTime::timestamp`.
#[verifier::external_body]
fn rfc2822_seconds(s: &str) -> (r: Option<i64>)
    ensures
        r == rfc2822_seconds_of(s@),
{
    chrono::DateTime::parse_from_rfc2822(s).ok().map(|d| d.timestamp())
}

/// Relies on `str::to_lowercase`.
#[verifier::external_body]
fn lowercase(s: &str) -> (r: String)
    ensures
        r@ == lower_of(s@),
{
    s.to_lowercase()
}

/// Relies on `rss::Channel::read_from` and the `title`, `pub_date` and `link`
/// of each item.
#[verifier::external_body]
fn read_items(bytes: &Vec<u8>) -> (r: Option<Vec<FeedItem>>)
    ensures
        match r {
            Some(v) => feed_items_of(bytes@) == Some(items_view(v@)),
            None => feed_items_of(bytes@).is_none(),
        },
{
    rss::Channel::read_from(&bytes[..]).ok().map(
        |c|
            c.items().iter().map(
                |i|
                    FeedItem {
                        title: i.title().map(String::from),
                        pub_date: i.pub_date().map(String::from),
                        link: i.link().map(String::from),
                    },
            ).collect(),
    )
}

pub open spec fn tag_pattern() -> Seq<char> {
    "\\s*\\[([^\\[]*)]"@
}

pub open spec fn name_pattern() -> Seq<char> {
    "(?i)\\s*(?:\\s*[\\[(][^\\[]*?[])][\\s/\\\\\\-]*)*[\\s:\\-\"]*([^\"]*?(?:\"[^\"]+\"?[^\"]*?)*)[\\s\".]*[\\s\".]*$"@
}

fn tag_pattern_str() -> (r: &'static str)
    ensures
        r@ == tag_pattern(),
{
    "\\s*\\[([^\\[]*)]"
}

fn name_pattern_str() -> (r: &'static str)
    ensures
        r@ == name_pattern(),
{
    "(?i)\\s*(?:\\s*[\\[(][^\\[]*?[])][\\s/\\\\\\-]*)*[\\s:\\-\"]*([^\"]*?(?:\"[^\"]+\"?[^\"]*?)*)[\\s\".]*[\\s\".]*$"
}

/// The status a single lower-cased tag names, if any.
pub open spec fn tag_status_spec(lowered: Seq<char>) -> Option<Status> {
    if seq_contains(lowered, "vote"@) {
        Some(Status::Vote)
    } else if seq_contains(lowered, "terminé"@) {
        Some(Status::Vote)
    } else if seq_contains(lowered, "développement"@) {
        Some(Status::EnDev)
    } else {
        None
    }
}

/// The status named by the last tag that names one; `Discussion` if none does.
pub open spec fn status_of_lowered(tags: Seq<Seq<char>>) -> Status
    decreases tags.len(),
{
    if tags.len() == 0 {
        Status::Discussion
    } else {
        match tag_status_spec(tags.last()) {
            Some(s) => s,
            None => status_of_lowered(tags.drop_last()),
        }
    }
}

/// Whether the tag scan finds at least one bracketed segment in the title.
pub open spec fn has_tag(title: Seq<char>) -> bool {
    match all_captures_of(tag_pattern(), title) {
        Some(tags) => tags.len() > 0,
        None => false,
    }
}

/// The status of an entry from the tags of its title. The words looked for
/// hold no white space, so trimming a tag first would change nothing.
pub open spec fn title_status_spec(title: Seq<char>) -> Status {
    match all_captures_of(tag_pattern(), title) {
        None => Status::Discussion,
        Some(tags) => status_of_lowered(tags.map_values(|t: Seq<char>| lower_of(t))),
    }
}

/// The name given to an entry whose title leaves no name.
pub open spec fn fallback_name(n: nat) -> Seq<char> {
    "(sans nom "@ + decimal(n) + ")"@
}

/// The name of a new thread from the name part of its title.
pub open spec fn name_or_fallback_spec(captured: Seq<char>, fils: Seq<FilView>) -> Seq<char> {
    if captured.len() == 0 {
        fallback_name(count_named(fils, "sans nom"@))
    } else {
        captured
    }
}

/// The status a single lower-cased tag names: "vote" or "terminé" give
/// `Vote`, "développement" gives `EnDev`.
pub fn tag_status(lowered: &str) -> (r: Option<Status>)
    ensures
        r == tag_status_spec(lowered@),
{
    if contains(lowered, "vote") {
        Some(Status::Vote)
    } else if contains(lowered, "terminé") {
        Some(Status::Vote)
    } else if contains(lowered, "développement") {
        Some(Status::EnDev)
    } else {
        None
    }
}

/// The status named by the last of the lower-cased tags that names one.
pub fn status_of_lowered_tags(tags: &Vec<String>) -> (r: Status)
    ensures
        r == status_of_lowered(strings_view(tags@)),
{
    let mut s = Status::Discussion;
    let mut i: usize = 0;
    while i < tags.len()
        invariant
            i <= tags@.len(),
            s == status_of_lowered(strings_view(tags@).subrange(0, i as int)),
        decreases tags@.len() - i,
    {
        let ghost pre = strings_view(tags@).subrange(0, i as int);
        let ghost post = strings_view(tags@).subrange(0, i + 1);
        assert(post.drop_last() =~= pre);
        assert(post.last() == tags@[i as int]@);
        match tag_status(tags[i].as_str()) {
            Some(t) => {
                s = t;
            },
            None => {},
        }
        i += 1;
    }
    assert(strings_view(tags@).subrange(0, i as int) =~= strings_view(tags@));
    s
}

/// The status named by the tags, compared in lower case.
pub fn status_of_tags(tags: &Vec<String>) -> (r: Status)
    ensures
        r == status_of_lowered(strings_view(tags@).map_values(|t: Seq<char>| lower_of(t))),
{
    let mut lowered: Vec<String> = Vec::new();
    let mut i: usize = 0;
    while i < tags.len()
        invariant
            i <= tags@.len(),
            lowered@.len() == i,
            forall|k: int| 0 <= k < i ==> #[trigger] lowered@[k]@ == lower_of(tags@[k]@),
        decreases tags@.len() - i,
    {
        lowered.push(lowercase(tags[i].as_str()));
        i += 1;
    }
    assert(strings_view(lowered@) =~= strings_view(tags@).map_values(|t: Seq<char>| lower_of(t)));
    status_of_lowered_tags(&lowered)
}

/// The status of an entry from the bracketed tags of its title.
pub fn title_status(title: &str) -> (r: Status)
    ensures
        r == title_status_spec(title@),
{
    match all_captures(tag_pattern_str(), title) {
        None => Status::Discussion,
        Some(tags) => status_of_tags(&tags),
    }
}

/// The name for a new thread: the name part of its title or, when that is
/// empty, `(sans nom N)` with N the number of threads whose name holds
/// "sans nom".
pub fn name_or_fallback(captured: String, reg: &Registry) -> (r: String)
    ensures
        r@ == name_or_fallback_spec(captured@, reg@.fils),
{
    if captured.unicode_len() == 0 {
        let n = reg.count_named("sans nom");
        let mut s = owned("(sans nom ");
        let d = decimal_string(n as u64);
        s.append(d.as_str());
        s.append(")");
        s
    } else {
        captured
    }
}

/// What merging one feed entry did.
#[derive(Clone, Copy, Debug, PartialEq, Eq, Structural)]
pub enum EntryReport {
    /// The entry has no publication date.
    Undated,
    /// The publication date cannot be read.
    BadDate,
    /// The entry is not newer than the watermark.
    Old,
    /// The title holds no bracketed `[...]` tag.
    Untagged,
    /// No name can be read from the title.
    BadTitle,
    /// The entry has no link.
    NoLink,
    /// The link carries no thread identifier.
    BadLink,
    /// A new thread with this identifier was added.
    Added(u64),
    /// A thread with this identifier is already there: nothing changed.
    /// `date` is the entry's date, newer than the watermark.
    Duplicate { id: u64, date: i64 },
}

/// The date of an entry, when it has one that can be read.
pub open spec fn entry_date(it: ItemView) -> Option<i64> {
    match it.1 {
        None => None,
        Some(d) => rfc2822_seconds_of(d),
    }
}

/// What merging an entry into `fils`, under watermark `watermark`, reports,
/// and the thread it adds.
pub open spec fn entry_effect(
    fils: Seq<FilView>,
    watermark: i64,
    pole: Pole,
    it: ItemView,
    now: i64,
) -> (EntryReport, Option<FilView>) {
    if it.1.is_none() {
        (EntryReport::Undated, None)
    } else if entry_date(it).is_none() {
        (EntryReport::BadDate, None)
    } else if entry_date(it).unwrap() <= watermark {
        (EntryReport::Old, None)
    } else if it.0.is_none() || !has_tag(it.0.unwrap()) {
        (EntryReport::Untagged, None)
    } else if first_capture_of(name_pattern(), it.0.unwrap()).is_none() {
        (EntryReport::BadTitle, None)
    } else if it.2.is_none() {
        (EntryReport::NoLink, None)
    } else if url_id(it.2.unwrap()).is_none() {
        (EntryReport::BadLink, None)
    } else if has_id(fils, url_id(it.2.unwrap()).unwrap()) {
        (
            EntryReport::Duplicate { id: url_id(it.2.unwrap()).unwrap(), date: entry_date(it).unwrap() },
            None,
        )
    } else {
        let id = url_id(it.2.unwrap()).unwrap();
        (
            EntryReport::Added(id),
            Some(
                FilView {
                    name: name_or_fallback_spec(
                        first_capture_of(name_pattern(), it.0.unwrap()).unwrap(),
                        fils,
                    ),
                    lien: it.2.unwrap(),
                    pole,
                    status: title_status_spec(it.0.unwrap()),
                    last_update: now,
                    id,
                    modified: false,
                },
            ),
        )
    }
}

pub open spec fn with_added(fils: Seq<FilView>, added: Option<FilView>) -> Seq<FilView> {
    match added {
        Some(f) => fils.push(f),
        None => fils,
    }
}

/// The latest of `latest` and the date of the entry.
pub open spec fn later(latest: i64, it: ItemView) -> i64 {
    match entry_date(it) {
        Some(t) => if t > latest {
            t
        } else {
            latest
        },
        None => latest,
    }
}

/// Merges one entry of the feed of category `pole`: see `entry_effect`.
/// `latest` becomes the latest of itself and the entry's date; the watermark
/// does not change.
pub fn merge_entry(reg: &mut Registry, pole: Pole, item: &FeedItem, latest: &mut i64, now: i64) -> (r:
    EntryReport)
    requires
        old(reg).wf(),
        crate::fil::valid_timestamp(now),
    ensures
        final(reg).wf(),
        r == entry_effect(old(reg)@.fils, old(reg)@.last_poll_time, pole, item_view(*item), now).0,
        final(reg)@ == (RegistryView {
            fils: with_added(
                old(reg)@.fils,
                entry_effect(old(reg)@.fils, old(reg)@.last_poll_time, pole, item_view(*item), now).1,
            ),
            ..old(reg)@
        }),
        *final(latest) == later(*old(latest), item_view(*item)),
{
    let date = match &item.pub_date {
        None => return EntryReport::Undated,
        Some(d) => match rfc2822_seconds(d.as_str()) {
            None => return EntryReport::BadDate,
            Some(t) => t,
        },
    };
    if date > *latest {
        *latest = date;
    }
    if date <= reg.last_poll_time() {
        return EntryReport::Old;
    }
    let title = match &item.title {
        None => return EntryReport::Untagged,
        Some(t) => t,
    };
    let tags = match all_captures(tag_pattern_str(), title.as_str()) {
        None => return EntryReport::Untagged,
        Some(t) => t,
    };
    if tags.len() == 0 {
        return EntryReport::Untagged;
    }
    let status = status_of_tags(&tags);
    let captured = match first_capture(name_pattern_str(), title.as_str()) {
        None => return EntryReport::BadTitle,
        Some(c) => c,
    };
    let name = name_or_fallback(captured, reg);
    let link = match &item.link {
        None => return EntryReport::NoLink,
        Some(l) => owned(l.as_str()),
    };
    let id = match find_id(link.as_str()) {
        None => return EntryReport::BadLink,
        Some(id) => id,
    };
    if reg.contains_id(id) {
        return EntryReport::Duplicate { id, date };
    }
    match Fil::new(name, link, pole, status, now) {
        Ok(fil) => {
            reg.insert(fil);
            EntryReport::Added(id)
        },
        Err(_) => EntryReport::BadLink,
    }
}

pub open spec fn tag_items(pole: Pole, items: Seq<ItemView>) -> Seq<(Pole, ItemView)> {
    items.map_values(|it: ItemView| (pole, it))
}

/// The entries of the feeds, feed after feed, each with its feed's category;
/// `None` when a feed cannot be read.
pub open spec fn feeds_entries(feeds: Seq<(Pole, Seq<u8>)>) -> Option<Seq<(Pole, ItemView)>>
    decreases feeds.len(),
{
    if feeds.len() == 0 {
        Some(Seq::empty())
    } else {
        match feeds_entries(feeds.drop_last()) {
            None => None,
            Some(prev) => match feed_items_of(feeds.last().1) {
                None => None,
                Some(items) => Some(prev + tag_items(feeds.last().0, items)),
            },
        }
    }
}

pub open spec fn feeds_view(feeds: Seq<(Pole, Vec<u8>)>) -> Seq<(Pole, Seq<u8>)> {
    feeds.map_values(|f: (Pole, Vec<u8>)| (f.0, f.1@))
}

pub open spec fn entries_view(v: Seq<(Pole, FeedItem)>) -> Seq<(Pole, ItemView)> {
    v.map_values(|e: (Pole, FeedItem)| (e.0, item_view(e.1)))
}

/// The threads after merging `entries` in order.
pub open spec fn merged(
    fils: Seq<FilView>,
    watermark: i64,
    entries: Seq<(Pole, ItemView)>,
    now: i64,
) -> Seq<FilView>
    decreases entries.len(),
{
    if entries.len() == 0 {
        fils
    } else {
        let prev = merged(fils, watermark, entries.drop_last(), now);
        with_added(prev, entry_effect(prev, watermark, entries.last().0, entries.last().1, now).1)
    }
}

/// The reports of merging `entries` in order.
pub open spec fn merge_reports(
    fils: Seq<FilView>,
    watermark: i64,
    entries: Seq<(Pole, ItemView)>,
    now: i64,
) -> Seq<EntryReport>
    decreases entries.len(),
{
    if entries.len() == 0 {
        Seq::empty()
    } else {
        let prev = merged(fils, watermark, entries.drop_last(), now);
        merge_reports(fils, watermark, entries.drop_last(), now).push(
            entry_effect(prev, watermark, entries.last().0, entries.last().1, now).0,
        )
    }
}

/// The latest of `start` and the dates of `entries`.
pub open spec fn latest_date(start: i64, entries: Seq<(Pole, ItemView)>) -> i64
    decreases entries.len(),
{
    if entries.len() == 0 {
        start
    } else {
        later(latest_date(start, entries.drop_last()), entries.last().1)
    }
}

/// Reads every feed; `None` as soon as one cannot be read.
pub fn read_feeds(feeds: &Vec<(Pole, Vec<u8>)>) -> (r: Option<Vec<(Pole, FeedItem)>>)
    ensures
        match r {
            Some(v) => feeds_entries(feeds_view(feeds@)) == Some(entries_view(v@)),
            None => feeds_entries(feeds_view(feeds@)).is_none(),
        },
{
    let mut out: Vec<(Pole, FeedItem)> = Vec::new();
    let mut i: usize = 0;
    while i < feeds.len()
        invariant
            i <= feeds@.len(),
            feeds_entries(feeds_view(feeds@).subrange(0, i as int)) == Some(entries_view(out@)),
        decreases feeds@.len() - i,
    {
        let ghost pre = feeds_view(feeds@).subrange(0, i as int);
        let ghost post = feeds_view(feeds@).subrange(0, i + 1);
        assert(post.drop_last() =~= pre);
        assert(post.last() == (feeds@[i as int].0, feeds@[i as int].1@));
        let pole = feeds[i].0;
        let items = match read_items(&feeds[i].1) {
            None => {
                proof {
                    lemma_feeds_entries_none(feeds_view(feeds@), i + 1);
                }
                return None;
            },
            Some(v) => v,
        };
        let ghost bv = entries_view(out@);
        let mut j: usize = 0;
        assert(entries_view(out@) =~= bv + tag_items(pole, items_view(items@).subrange(0, 0)));
        while j < items.len()
            invariant
                j <= items@.len(),
                entries_view(out@) == bv + tag_items(pole, items_view(items@).subrange(0, j as int)),
            decreases items@.len() - j,
        {
            let c = items[j].clone_item();
            let ghost ov = out@;
            out.push((pole, c));
            assert(entries_view(out@) =~= entries_view(ov).push((pole, item_view(items@[j as int]))));
            assert(tag_items(pole, items_view(items@).subrange(0, j + 1)) =~= tag_items(
                pole,
                items_view(items@).subrange(0, j as int),
            ).push((pole, item_view(items@[j as int]))));
            j += 1;
            assert(entries_view(out@) =~= bv + tag_items(
                pole,
                items_view(items@).subrange(0, j as int),
            ));
        }
        assert(items_view(items@).subrange(0, j as int) =~= items_view(items@));
        i += 1;
    }
    assert(feeds_view(feeds@).subrange(0, i as int) =~= feeds_view(feeds@));
    Some(out)
}

proof fn lemma_feeds_entries_none(feeds: Seq<(Pole, Seq<u8>)>, n: int)
    requires
        0 < n <= feeds.len(),
        feeds_entries(feeds.subrange(0, n)).is_none(),
    ensures
        feeds_entries(feeds).is_none(),
    decreases feeds.len() - n,
{
    if n < feeds.len() {
        assert(feeds.subrange(0, n + 1).drop_last() =~= feeds.subrange(0, n));
        lemma_feeds_entries_none(feeds, n + 1);
    } else {
        assert(feeds.subrange(0, n) =~= feeds);
    }
}

impl FeedItem {
    /// A copy of this item.
    pub fn clone_item(&self) -> (r: FeedItem)
        ensures
            item_view(r) == item_view(*self),
    {
        FeedItem {
            title: opt_owned(&self.title),
            pub_date: opt_owned(&self.pub_date),
            link: opt_owned(&self.link),
        }
    }
}

fn opt_owned(o: &Option<String>) -> (r: Option<String>)
    ensures
        opt_view(r) == opt_view(*o),
{
    match o {
        Some(s) => Some(owned(s.as_str())),
        None => None,
    }
}

/// Merges `entries` in order (see `merge_entry`), without moving the
/// watermark; `latest` becomes the latest of itself and their dates.
pub fn merge_entries(reg: &mut Registry, entries: &Vec<(Pole, FeedItem)>, latest: &mut i64, now: i64) -> (r:
    Vec<EntryReport>)
    requires
        old(reg).wf(),
        crate::fil::valid_timestamp(now),
    ensures
        final(reg).wf(),
        final(reg)@ == (RegistryView {
            fils: merged(old(reg)@.fils, old(reg)@.last_poll_time, entries_view(entries@), now),
            ..old(reg)@
        }),
        r@ == merge_reports(old(reg)@.fils, old(reg)@.last_poll_time, entries_view(entries@), now),
        *final(latest) == latest_date(*old(latest), entries_view(entries@)),
{
    let ghost start = reg@;
    let ghost start_latest = *latest;
    let mut reports: Vec<EntryReport> = Vec::new();
    let mut i: usize = 0;
    while i < entries.len()
        invariant
            i <= entries@.len(),
            reg.wf(),
            crate::fil::valid_timestamp(now),
            reg@ == (RegistryView {
                fils: merged(start.fils, start.last_poll_time, entries_view(entries@).subrange(0, i as int), now),
                ..start
            }),
            reports@ == merge_reports(start.fils, start.last_poll_time, entries_view(entries@).subrange(0, i as int), now),
            *latest == latest_date(start_latest, entries_view(entries@).subrange(0, i as int)),
        decreases entries@.len() - i,
    {
        let ghost pre = entries_view(entries@).subrange(0, i as int);
        let ghost post = entries_view(entries@).subrange(0, i + 1);
        assert(post.drop_last() =~= pre);
        assert(post.last() == (entries@[i as int].0, item_view(entries@[i as int].1)));
        let rep = merge_entry(reg, entries[i].0, &entries[i].1, latest, now);
        reports.push(rep);
        i += 1;
    }
    assert(entries_view(entries@).subrange(0, i as int) =~= entries_view(entries@));
    reports
}

/// One poll cycle over the fetched documents of the feeds, in order: when
/// every feed can be read, their entries are merged, the watermark moves to
/// the latest date seen, and derived views must be rendered again; otherwise
/// nothing changes.
pub fn poll(reg: &mut Registry, feeds: &Vec<(Pole, Vec<u8>)>, now: i64) -> (r: Result<
    Vec<EntryReport>,
    FilError,
>)
    requires
        old(reg).wf(),
        crate::fil::valid_timestamp(now),
    ensures
        final(reg).wf(),
        match feeds_entries(feeds_view(feeds@)) {
            None => r is Err && r->Err_0@ == FilErrorView::BadFeed && final(reg)@ == old(reg)@,
            Some(es) => r is Ok && r->Ok_0@ == merge_reports(
                old(reg)@.fils,
                old(reg)@.last_poll_time,
                es,
                now,
            ) && final(reg)@ == (RegistryView {
                fils: merged(old(reg)@.fils, old(reg)@.last_poll_time, es, now),
                last_poll_time: if latest_date(0, es) > old(reg)@.last_poll_time {
                    latest_date(0, es)
                } else {
                    old(reg)@.last_poll_time
                },
                needs_refresh: true,
            }),
        },
{
    let entries = match read_feeds(feeds) {
        None => return Err(FilError::BadFeed),
        Some(e) => e,
    };
    let mut latest: i64 = 0;
    let reports = merge_entries(reg, &entries, &mut latest, now);
    reg.finish_poll(latest);
    Ok(reports)
}

/// Merging an entry whose thread is already in the registry adds nothing;
/// when the entry is a candidate it is reported as a duplicate.
pub proof fn lemma_known_entry_adds_nothing(
    fils: Seq<FilView>,
    watermark: i64,
    pole: Pole,
    it: ItemView,
    now: i64,
)
    requires
        it.2.is_some(),
        url_id(it.2.unwrap()).is_some(),
        has_id(fils, url_id(it.2.unwrap()).unwrap()),
    ensures
        entry_effect(fils, watermark, pole, it, now).1.is_none(),
        !(entry_effect(fils, watermark, pole, it, now).0 is Added),
        entry_effect(fils, watermark, pole, it, now).0 is Duplicate ==> entry_effect(
            fils,
            watermark,
            pole,
            it,
            now,
        ).0 == (EntryReport::Duplicate {
            id: url_id(it.2.unwrap()).unwrap(),
            date: entry_date(it).unwrap(),
        }),
{
}

/// Merging the same entry a second time, under the same watermark, changes
/// nothing more.
pub proof fn lemma_merge_entry_idempotent(
    fils: Seq<FilView>,
    watermark: i64,
    pole: Pole,
    it: ItemView,
    now: i64,
)
    ensures
        entry_effect(
            with_added(fils, entry_effect(fils, watermark, pole, it, now).1),
            watermark,
            pole,
            it,
            now,
        ).1.is_none(),
{
    let first = entry_effect(fils, watermark, pole, it, now);
    if let Some(f) = first.1 {
        let fils2 = fils.push(f);
        assert(fils2[fils.len() as int].id == f.id);
        assert(has_id(fils2, url_id(it.2.unwrap()).unwrap()));
    }
}

proof fn lemma_latest_date_covers(start: i64, es: Seq<(Pole, ItemView)>)
    ensures
        latest_date(start, es) >= start,
        forall|k: int|
            0 <= k < es.len() && (#[trigger] entry_date(es[k].1)).is_some() ==> entry_date(
                es[k].1,
            ).unwrap() <= latest_date(start, es),
    decreases es.len(),
{
    if es.len() > 0 {
        lemma_latest_date_covers(start, es.drop_last());
        assert forall|k: int|
            0 <= k < es.len() && (#[trigger] entry_date(es[k].1)).is_some() implies entry_date(
                es[k].1,
            ).unwrap() <= latest_date(start, es) by {
            if k < es.len() - 1 {
                assert(es.drop_last()[k] == es[k]);
            }
        }
    }
}

proof fn lemma_merged_all_old(fils: Seq<FilView>, wm: i64, es: Seq<(Pole, ItemView)>, now: i64)
    requires
        forall|k: int|
            0 <= k < es.len() && (#[trigger] entry_date(es[k].1)).is_some() ==> entry_date(
                es[k].1,
            ).unwrap() <= wm,
    ensures
        merged(fils, wm, es, now) == fils,
    decreases es.len(),
{
    if es.len() > 0 {
        assert forall|k: int|
            0 <= k < es.drop_last().len() && (#[trigger] entry_date(es.drop_last()[k].1)).is_some()
                implies entry_date(es.drop_last()[k].1).unwrap() <= wm by {
            assert(es.drop_last()[k] == es[k]);
        }
        lemma_merged_all_old(fils, wm, es.drop_last(), now);
        assert(entry_date(es[es.len() - 1].1) == entry_date(es.last().1));
    }
}

/// Polling the same entries a second time, under the watermark the first
/// poll left, adds no thread and leaves the watermark where it is.
pub proof fn lemma_poll_again_changes_nothing(
    fils: Seq<FilView>,
    wm: i64,
    es: Seq<(Pole, ItemView)>,
    now: i64,
)
    ensures
        ({
            let wm1 = if latest_date(0, es) > wm {
                latest_date(0, es)
            } else {
                wm
            };
            let fils1 = merged(fils, wm, es, now);
            merged(fils1, wm1, es, now) == fils1 && !(latest_date(0, es) > wm1)
        }),
{
    let wm1 = if latest_date(0, es) > wm {
        latest_date(0, es)
    } else {
        wm
    };
    lemma_latest_date_covers(0, es);
    lemma_merged_all_old(merged(fils, wm, es, now), wm1, es, now);
}

} // verus!
