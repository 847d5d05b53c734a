//! Watching the clipboard for links to download.

use vstd::prelude::*;

use crate::capture_link::{capture_url, is_capture_url, normalize_capture_url, normalized};
use crate::clock::{Duration, Instant};
use crate::preferences::Preferences;
use crate::text::{
    entries, entry_list, kept, opt_text, same, split, texts, trim, trimmed, white_space, Separator,
};
use crate::text_laws::{blank, law_trimming_ignores_the_ends};

verus! {

/// The preference for watching the clipboard, off by default.
pub const CLIPBOARD_WATCH_PREF: &'static str = "general.clipboard_watch";

/// How many links are remembered.
pub const SEEN_CAPACITY: usize = 50;

/// How long a link is remembered, in seconds.
pub const SEEN_TTL_SECS: u64 = 1800;

/// The lines of a text, trimmed, without empty ones.
pub open spec fn lines_of(text: Seq<char>) -> Seq<Seq<char>> {
    entries(trimmed(text), Separator::Exactly('\n'))
}

/// The links in a copied text: the text itself where it is one link, its lines where each of
/// several is one, and none in any other text.
pub open spec fn links_in(text: Seq<char>) -> Seq<Seq<char>> {
    let lines = lines_of(text);
    if lines.len() > 1 {
        if forall|i: int| 0 <= i < lines.len() ==> capture_url(#[trigger] lines[i]) {
            lines
        } else {
            Seq::empty()
        }
    } else if capture_url(trimmed(text)) {
        seq![trimmed(text)]
    } else {
        Seq::empty()
    }
}

/// The links in a copied text.
pub fn extract_capture_urls(text: &str) -> (r: Vec<String>)
    ensures
        texts(r@) == links_in(text@),
{
    let whole = trim(text);
    let lines = entry_list(whole.as_str(), Separator::Exactly('\n'));
    let ghost views = texts(lines@);
    assert(views.len() == lines@.len());
    let none: Vec<String> = Vec::new();
    assert(texts(none@) =~= Seq::<Seq<char>>::empty());
    if lines.len() > 1 {
        let mut i: usize = 0;
        while i < lines.len()
            invariant
                i <= lines@.len(),
                views == texts(lines@),
                views == lines_of(text@),
                lines@.len() > 1,
                texts(none@) == Seq::<Seq<char>>::empty(),
                forall|k: int| 0 <= k < i ==> capture_url(#[trigger] views[k]),
            decreases lines@.len() - i,
        {
            assert(views[i as int] == lines@[i as int]@);
            if !is_capture_url(lines[i].as_str()) {
                return none;
            }
            i += 1;
        }
        return lines;
    }
    if is_capture_url(whole.as_str()) {
        let mut one: Vec<String> = Vec::new();
        one.push(whole);
        assert(texts(one@) =~= seq![trimmed(text@)]);
        return one;
    }
    none
}

/// Every link that is found can be made into a download.
pub proof fn law_extracted_links_are_links(text: Seq<char>, i: int)
    requires
        0 <= i < links_in(text).len(),
    ensures
        capture_url(links_in(text)[i]),
{
}

/// A link and when it was seen.
#[derive(Debug)]
pub struct SeenUrl {
    pub url: String,
    pub seen_at: Instant,
}

/// The links that were seen lately, the oldest first.
#[derive(Debug)]
pub struct SeenUrls {
    pub entries: Vec<SeenUrl>,
}

pub open spec fn seen_views(entries: Seq<SeenUrl>) -> Seq<(Seq<char>, Instant)> {
    entries.map_values(|e: SeenUrl| (e.url@, e.seen_at))
}

pub open spec fn ttl() -> Duration {
    Duration::of_secs(SEEN_TTL_SECS)
}

/// The entries that are still remembered.
pub open spec fn fresh(entries: Seq<(Seq<char>, Instant)>, now: Instant) -> Seq<
    (Seq<char>, Instant),
>
    decreases entries.len(),
{
    if entries.len() == 0 {
        Seq::empty()
    } else {
        let before = fresh(entries.drop_last(), now);
        if now.since(entries.last().1).nanos < ttl().nanos {
            before.push(entries.last())
        } else {
            before
        }
    }
}

/// Whether a link is among the entries.
pub open spec fn remembered(entries: Seq<(Seq<char>, Instant)>, url: Seq<char>) -> bool {
    exists|i: int| 0 <= i < entries.len() && (#[trigger] entries[i]).0 == url
}

/// The entries without the oldest ones that are one too many for another to be added.
pub open spec fn with_room(entries: Seq<(Seq<char>, Instant)>) -> Seq<(Seq<char>, Instant)> {
    if entries.len() < SEEN_CAPACITY {
        entries
    } else {
        entries.skip(entries.len() - SEEN_CAPACITY + 1)
    }
}

impl SeenUrls {
    /// No more links are remembered than there is room for.
    pub open spec fn wf(&self) -> bool {
        self.entries@.len() <= SEEN_CAPACITY
    }

    pub fn new() -> (r: SeenUrls)
        ensures
            r.wf(),
            r.entries@.len() == 0,
    {
        SeenUrls { entries: Vec::new() }
    }

    /// Whether a link is new, and remembers it then. One that was seen within the time for which
    /// links are remembered is not. Where there is no room the oldest one is forgotten.
    pub fn insert(&mut self, url: &str, now: Instant) -> (r: bool)
        requires
            old(self).wf(),
        ensures
            final(self).wf(),
            ({
                let kept = fresh(seen_views(old(self).entries@), now);
                &&& r == !remembered(kept, url@)
                &&& seen_views(final(self).entries@) == if r {
                    with_room(kept).push((url@, now))
                } else {
                    kept
                }
            }),
    {
        let ghost views = seen_views(self.entries@);
        let ttl = Duration::from_secs(SEEN_TTL_SECS);
        let mut kept: Vec<SeenUrl> = Vec::new();
        let mut known: bool = false;
        let mut i: usize = 0;
        assert(seen_views(kept@) =~= fresh(views.take(0), now));
        while i < self.entries.len()
            invariant
                i <= self.entries@.len(),
                self.entries@ == old(self).entries@,
                views == seen_views(self.entries@),
                ttl == Duration::of_secs(SEEN_TTL_SECS),
                kept@.len() <= i,
                seen_views(kept@) == fresh(views.take(i as int), now),
                known == remembered(seen_views(kept@), url@),
            decreases self.entries@.len() - i,
        {
            let ghost was = seen_views(kept@);
            assert(views.take(i + 1).drop_last() =~= views.take(i as int));
            let entry = &self.entries[i];
            let ghost view = (entry.url@, entry.seen_at);
            assert(views.take(i + 1).last() == view);
            if now.saturating_duration_since(entry.seen_at).nanos < ttl.nanos {
                kept.push(SeenUrl { url: entry.url.clone(), seen_at: entry.seen_at });
                assert(seen_views(kept@) =~= was.push(view));
                proof {
                    lemma_push_remembered(was, view, url@);
                }
                if same(entry.url.as_str(), url) {
                    known = true;
                }
            }
            i += 1;
        }
        assert(views.take(i as int) =~= views);
        let ghost all = seen_views(kept@);
        if !known {
            if kept.len() >= SEEN_CAPACITY {
                kept.remove(0);
                assert(seen_views(kept@) =~= all.skip(1));
            }
            let ghost room = seen_views(kept@);
            assert(room =~= with_room(all));
            kept.push(SeenUrl { url: url.to_owned(), seen_at: now });
            assert(seen_views(kept@) =~= room.push((url@, now)));
        }
        self.entries = kept;
        !known
    }
}

proof fn lemma_push_remembered(
    s: Seq<(Seq<char>, Instant)>,
    e: (Seq<char>, Instant),
    url: Seq<char>,
)
    ensures
        remembered(s.push(e), url) == (remembered(s, url) || e.0 == url),
{
    if remembered(s, url) {
        let i = choose|i: int| 0 <= i < s.len() && (#[trigger] s[i]).0 == url;
        assert(s.push(e)[i].0 == url);
    }
    if remembered(s.push(e), url) {
        let i = choose|i: int| 0 <= i < s.push(e).len() && (#[trigger] s.push(e)[i]).0 == url;
        if i < s.len() {
            assert(s[i].0 == url);
        }
    }
    assert(s.push(e)[s.len() as int] == e);
}

proof fn lemma_fresh_last(entries: Seq<(Seq<char>, Instant)>, e: (Seq<char>, Instant), now: Instant)
    requires
        now.since(e.1).nanos < ttl().nanos,
    ensures
        remembered(fresh(entries.push(e), now), e.0),
{
    let all = entries.push(e);
    assert(all.drop_last() =~= entries);
    assert(all.last() == e);
    let kept = fresh(all, now);
    assert(kept[kept.len() - 1].0 == e.0);
}

/// A link that was just taken is not taken again within the time for which links are remembered.
pub proof fn law_links_are_taken_once(
    entries: Seq<(Seq<char>, Instant)>,
    url: Seq<char>,
    now: Instant,
    later: Instant,
)
    requires
        !remembered(fresh(entries, now), url),
        later.since(now).nanos < ttl().nanos,
    ensures
        remembered(fresh(with_room(fresh(entries, now)).push((url, now)), later), url),
{
    lemma_fresh_last(with_room(fresh(entries, now)), (url, now), later);
}

/// A link is taken again once the time for which links are remembered is over.
pub proof fn law_links_expire(entries: Seq<(Seq<char>, Instant)>, url: Seq<char>, now: Instant)
    requires
        forall|i: int|
            0 <= i < entries.len() && (#[trigger] entries[i]).0 == url ==> now.since(
                entries[i].1,
            ).nanos >= ttl().nanos,
    ensures
        !remembered(fresh(entries, now), url),
    decreases entries.len(),
{
    if entries.len() > 0 {
        let rest = entries.drop_last();
        assert forall|i: int| 0 <= i < rest.len() && (#[trigger] rest[i]).0 == url implies now.since(
            rest[i].1,
        ).nanos >= ttl().nanos by {
            assert(rest[i] == entries[i]);
        }
        law_links_expire(rest, url, now);
        let last = entries.last();
        assert(entries[entries.len() - 1] == last);
        if now.since(last.1).nanos < ttl().nanos {
            lemma_push_remembered(fresh(rest, now), last, url);
        }
    }
}

/// The watcher's memory: the text that was last seen in the clipboard, and the links that were
/// taken.
#[derive(Debug)]
pub struct ClipboardWatcher {
    pub last_text: Option<String>,
    pub seen: SeenUrls,
}

/// The links to hand over after a list of links was looked at, of which the first `n` are done:
/// those that were new, and what is remembered then.
pub open spec fn taken_links(
    links: Seq<Seq<char>>,
    entries: Seq<(Seq<char>, Instant)>,
    now: Instant,
    n: int,
) -> (Seq<Seq<char>>, Seq<(Seq<char>, Instant)>)
    decreases n,
{
    if n <= 0 {
        (Seq::empty(), entries)
    } else {
        let (taken, before) = taken_links(links, entries, now, n - 1);
        let url = normalized(links[n - 1]);
        let kept = fresh(before, now);
        if remembered(kept, url) {
            (taken, kept)
        } else {
            (taken.push(url), with_room(kept).push((url, now)))
        }
    }
}

impl ClipboardWatcher {
    /// A watcher that takes what is in the clipboard at the start for seen.
    pub fn new(baseline: Option<String>) -> (r: ClipboardWatcher)
        ensures
            r.last_text == baseline,
            r.seen.entries@.len() == 0,
            r.seen.wf(),
    {
        ClipboardWatcher { last_text: baseline, seen: SeenUrls::new() }
    }

    /// One look at the clipboard, and the links to hand over: where watching is on, the clipboard
    /// holds a text and that text is another one than last time, those of its links that were not
    /// taken lately.
    pub fn poll(&mut self, preferences: &Preferences, text: Option<String>, now: Instant) -> (r: Vec<
        String,
    >)
        requires
            old(self).seen.wf(),
        ensures
            final(self).seen.wf(),
            ({
                let enabled = preferences.flag_or(CLIPBOARD_WATCH_PREF@, false);
                if !enabled || text is None || opt_text(old(self).last_text) == opt_text(text) {
                    &&& r@.len() == 0
                    &&& *final(self) == *old(self)
                } else {
                    let links = links_in((text->0)@);
                    let outcome = taken_links(
                        links,
                        seen_views(old(self).seen.entries@),
                        now,
                        links.len() as int,
                    );
                    &&& texts(r@) == outcome.0
                    &&& seen_views(final(self).seen.entries@) == outcome.1
                    &&& final(self).last_text == text
                }
            }),
    {
        let mut r: Vec<String> = Vec::new();
        if !preferences.preference_bool(CLIPBOARD_WATCH_PREF, false) {
            return r;
        }
        match text {
            None => r,
            Some(text) => {
                let unchanged: bool = match &self.last_text {
                    Some(last) => same(last.as_str(), text.as_str()),
                    None => false,
                };
                if unchanged {
                    return r;
                }
                let links = extract_capture_urls(text.as_str());
                let ghost views = texts(links@);
                let ghost start = seen_views(self.seen.entries@);
                self.last_text = Some(text);
                let mut i: usize = 0;
                assert(texts(r@) =~= Seq::<Seq<char>>::empty());
                while i < links.len()
                    invariant
                        i <= links@.len(),
                        views == texts(links@),
                        self.seen.wf(),
                        self.last_text == Some(text),
                        (texts(r@), seen_views(self.seen.entries@)) == taken_links(
                            views,
                            start,
                            now,
                            i as int,
                        ),
                    decreases links@.len() - i,
                {
                    let ghost was = texts(r@);
                    assert(views[i as int] == links@[i as int]@);
                    let url = normalize_capture_url(links[i].as_str());
                    if self.seen.insert(url.as_str(), now) {
                        r.push(url);
                        assert(texts(r@) =~= was.push(url@));
                    }
                    i += 1;
                }
                assert(views.len() == links@.len());
                r
            },
        }
    }
}

/// A text that is one link, with white space around it or without, gives that link.
pub proof fn law_single_link_is_found(
    before: Seq<char>,
    link: Seq<char>,
    after: Seq<char>,
    text: &str,
    found: Vec<String>,
)
    requires
        blank(before),
        blank(after),
        link.len() > 0,
        !white_space(link[0]),
        !white_space(link.last()),
        !link.contains('\n'),
        text@ == before + link + after,
        call_ensures(extract_capture_urls, (text,), found),
    ensures
        capture_url(link) ==> texts(found@) == seq![link],
        !capture_url(link) ==> found@.len() == 0,
{
    law_trimming_ignores_the_ends(before, link, after);
    lemma_one_line(link);
    assert(texts(found@).len() == found@.len());
}

proof fn lemma_one_line(line: Seq<char>)
    requires
        !line.contains('\n'),
    ensures
        entries(line, Separator::Exactly('\n')).len() <= 1,
{
    lemma_unsplit(line);
    let parts = split(line, Separator::Exactly('\n'));
    assert(parts =~= seq![line]);
    reveal_with_fuel(kept, 2);
    assert(parts.drop_last() =~= Seq::empty());
}

proof fn lemma_unsplit(line: Seq<char>)
    requires
        !line.contains('\n'),
    ensures
        split(line, Separator::Exactly('\n')) == seq![line],
    decreases line.len(),
{
    let sep = Separator::Exactly('\n');
    if line.len() > 0 {
        let rest = line.drop_last();
        assert forall|i: int| 0 <= i < rest.len() implies rest[i] != '\n' by {
            assert(line.contains(line[i]));
        }
        lemma_unsplit(rest);
        assert(line.contains(line.last()));
        assert(rest.push(line.last()) =~= line);
        assert(split(line, sep) =~= seq![line]);
    } else {
        assert(line =~= Seq::empty());
    }
}

/// Several lines give all of them where each is a link, and none where one is not.
pub proof fn law_lines_are_all_links_or_none(text: &str, found: Vec<String>, i: int)
    requires
        call_ensures(extract_capture_urls, (text,), found),
        lines_of(text@).len() > 1,
        0 <= i < lines_of(text@).len(),
    ensures
        !capture_url(lines_of(text@)[i]) ==> found@.len() == 0,
        found@.len() > 0 ==> texts(found@) == lines_of(text@),
{
    assert(texts(found@).len() == found@.len());
}

/// The clipboard is watched only where the user asked for it; the same text is not looked at twice;
/// a new text that is one new link hands that link over, and not again when it comes back within
/// the time for which links are remembered.
pub proof fn law_clipboard_hands_new_links_over(
    watcher: &mut ClipboardWatcher,
    preferences: &Preferences,
    link: String,
    now: Instant,
    links: Vec<String>,
)
    requires
        call_ensures(ClipboardWatcher::poll, (watcher, preferences, Some(link), now), links),
        old(watcher).seen.entries@.len() == 0,
        link@.len() > 0,
        !white_space(link@[0]),
        !white_space(link@.last()),
        !link@.contains('\n'),
    ensures
        preferences.flag("general.clipboard_watch"@) != Some(true) ==> links@.len() == 0,
        opt_text(old(watcher).last_text) == Some(link@) ==> links@.len() == 0,
        preferences.flag("general.clipboard_watch"@) == Some(true) && opt_text(
            old(watcher).last_text) != Some(link@) ==> {
            &&& capture_url(link@) ==> texts(links@) == seq![normalized(link@)]
            &&& !capture_url(link@) ==> links@.len() == 0
            &&& opt_text(final(watcher).last_text) == Some(link@)
        },
{
    let none = Seq::<char>::empty();
    assert(none + link@ + none =~= link@);
    law_trimming_ignores_the_ends(none, link@, none);
    lemma_one_line(link@);
    let found = links_in(link@);
    let entries = seen_views(old(watcher).seen.entries@);
    assert(entries =~= Seq::empty());
    assert(texts(links@).len() == links@.len());
    reveal_with_fuel(taken_links, 3);
    if capture_url(link@) {
        assert(found =~= seq![link@]);
        assert(taken_links(found, entries, now, 1).0 =~= seq![normalized(link@)]);
    } else {
        assert(found =~= Seq::empty());
    }
}

/// A link that was seen is not taken again while it is remembered, for half an hour, and is taken
/// again after.
pub proof fn law_seen_link_is_remembered_for_a_while(
    first: &mut SeenUrls,
    second: &mut SeenUrls,
    url: &str,
    now: Instant,
    later: Instant,
    taken: bool,
    again: bool,
)
    requires
        old(first).entries@.len() == 0,
        now.nanos <= later.nanos,
        call_ensures(SeenUrls::insert, (first, url, now), taken),
        *old(second) == *final(first),
        call_ensures(SeenUrls::insert, (second, url, later), again),
    ensures
        taken,
        again <==> later.nanos - now.nanos >= 1_800_000_000_000,
{
    let none = seen_views(old(first).entries@);
    assert(none =~= Seq::empty());
    let seen = seen_views(final(first).entries@);
    assert(seen =~= seq![(url@, now)]);
    assert(seen.drop_last() =~= Seq::empty());
    reveal_with_fuel(fresh, 2);
    if later.nanos - now.nanos < 1_800_000_000_000 {
        assert(fresh(seen, later)[0].0 == url@);
    } else {
        assert(fresh(seen, later) =~= Seq::empty());
    }
}

} // verus!
