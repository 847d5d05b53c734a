//! Lists that the user edits line by line, such as trackers and servers, and the state of the
//! subscriptions that feed them.

use vstd::prelude::*;

use crate::text::{
    concat, decimal, entries, entry_list, fill, filled, join, joined, kept,
    lemma_padded_reads_back, number, padded,
    same_folded, same_ignoring_case, split, texts, trim, trim_end, trim_start, trimmed, white_space,
    Separator,
};

verus! {

/// How a list is kept. In the editor it always has one entry on each line.
#[derive(Clone, Copy, Debug, PartialEq, Eq, Structural)]
pub enum ListFormat {
    /// One entry on each line; comments and the like stay as they are.
    Lines,
    /// Entries with commas between them. White space between entries is read too.
    Comma,
}

impl ListFormat {
    /// What separates the entries of a list that is kept in this way.
    pub open spec fn separator(self) -> Separator {
        match self {
            ListFormat::Lines => Separator::LineBreak,
            ListFormat::Comma => Separator::CommaOrSpace,
        }
    }

    /// The entries of a list that is kept in this way.
    pub open spec fn entries_of(self, stored: Seq<char>) -> Seq<Seq<char>> {
        entries(stored, self.separator())
    }

    /// A list as the editor shows it.
    pub open spec fn edited(self, stored: Seq<char>) -> Seq<char> {
        match self {
            ListFormat::Lines => stored,
            ListFormat::Comma => joined(self.entries_of(stored), "\n"@),
        }
    }

    /// An edited list as it is kept.
    pub open spec fn stored(self, text: Seq<char>) -> Seq<char> {
        match self {
            ListFormat::Lines => trimmed(text),
            ListFormat::Comma => joined(distinct(self.entries_of(text)), ","@),
        }
    }

    /// The entries of a list that is kept in this way.
    pub fn entries(self, stored: &str) -> (r: Vec<String>)
        ensures
            texts(r@) == self.entries_of(stored@),
    {
        let separator = match self {
            ListFormat::Lines => Separator::LineBreak,
            ListFormat::Comma => Separator::CommaOrSpace,
        };
        entry_list(stored, separator)
    }

    /// The number of entries of a list that is kept in this way.
    pub fn count(self, stored: &str) -> (r: usize)
        ensures
            r == self.entries_of(stored@).len(),
    {
        let list = self.entries(stored);
        assert(texts(list@).len() == list@.len());
        list.len()
    }

    /// A list as the editor shows it.
    pub fn to_editor(self, stored: &str) -> (r: String)
        ensures
            r@ == self.edited(stored@),
    {
        match self {
            ListFormat::Lines => stored.to_owned(),
            ListFormat::Comma => {
                let list = self.entries(stored);
                join(&list, "\n")
            },
        }
    }

    /// An edited list as it is kept: trimmed, and of entries that differ only in case the first.
    pub fn to_stored(self, text: &str) -> (r: String)
        ensures
            r@ == self.stored(text@),
    {
        match self {
            ListFormat::Lines => trim(text),
            ListFormat::Comma => {
                let list = self.entries(text);
                let ghost all = texts(list@);
                let mut kept_list: Vec<String> = Vec::new();
                let mut i: usize = 0;
                assert(texts(kept_list@) =~= distinct(all.take(0)));
                while i < list.len()
                    invariant
                        i <= list@.len(),
                        all == texts(list@),
                        texts(kept_list@) == distinct(all.take(i as int)),
                    decreases list@.len() - i,
                {
                    let ghost was = texts(kept_list@);
                    assert(all.take(i + 1).drop_last() =~= all.take(i as int));
                    assert(all.take(i + 1).last() == list@[i as int]@);
                    if !listed(&kept_list, list[i].as_str()) {
                        kept_list.push(list[i].clone());
                        assert(texts(kept_list@) =~= was.push(list@[i as int]@));
                    }
                    i += 1;
                }
                assert(all.take(i as int) =~= all);
                join(&kept_list, ",")
            },
        }
    }
}

/// Whether an entry is in a list, but for the case of ASCII letters.
pub open spec fn has_folded(list: Seq<Seq<char>>, entry: Seq<char>) -> bool {
    exists|i: int| 0 <= i < list.len() && same_folded(#[trigger] list[i], entry)
}

fn listed(list: &Vec<String>, entry: &str) -> (r: bool)
    ensures
        r == has_folded(texts(list@), entry@),
{
    let mut i: usize = 0;
    while i < list.len()
        invariant
            i <= list@.len(),
            forall|k: int| 0 <= k < i ==> !same_folded(#[trigger] texts(list@)[k], entry@),
        decreases list@.len() - i,
    {
        assert(texts(list@)[i as int] == list@[i as int]@);
        if same_ignoring_case(list[i].as_str(), entry) {
            return true;
        }
        i += 1;
    }
    false
}

/// The entries without those that an earlier one equals but for the case of ASCII letters.
pub open spec fn distinct(list: Seq<Seq<char>>) -> Seq<Seq<char>>
    decreases list.len(),
{
    if list.len() == 0 {
        Seq::empty()
    } else {
        let before = distinct(list.drop_last());
        if has_folded(before, list.last()) {
            before
        } else {
            before.push(list.last())
        }
    }
}

/// Whether an entry is one word: not empty, and without any separator.
pub open spec fn one_word(entry: Seq<char>) -> bool {
    entry.len() > 0 && no_separator(entry)
}

pub open spec fn no_separator(part: Seq<char>) -> bool {
    forall|i: int|
        0 <= i < part.len() ==> !Separator::CommaOrSpace.splits(#[trigger] part[i])
}

proof fn lemma_split_clean(s: Seq<char>)
    ensures
        forall|i: int|
            0 <= i < split(s, Separator::CommaOrSpace).len() ==> no_separator(
                #[trigger] split(s, Separator::CommaOrSpace)[i],
            ),
    decreases s.len(),
{
    if s.len() > 0 {
        let sep = Separator::CommaOrSpace;
        lemma_split_clean(s.drop_last());
        crate::text::lemma_split_nonempty(s.drop_last(), sep);
        let before = split(s.drop_last(), sep);
        let after = split(s, sep);
        assert forall|i: int| 0 <= i < after.len() implies no_separator(#[trigger] after[i]) by {
            if sep.splits(s.last()) {
                if i < before.len() {
                    assert(after[i] == before[i]);
                    assert(no_separator(before[i]));
                }
            } else if i < before.len() - 1 {
                assert(after[i] == before[i]);
                assert(no_separator(before[i]));
            } else {
                assert(no_separator(before[before.len() - 1]));
                let part = before.last();
                assert(after[i] == part.push(s.last()));
                assert forall|k: int| 0 <= k < after[i].len() implies !sep.splits(
                    #[trigger] after[i][k],
                ) by {
                    if k < part.len() {
                        assert(after[i][k] == part[k]);
                    }
                }
            }
        }
    }
}

/// A text without white space at its ends is its own trimmed text.
proof fn lemma_trim_word(s: Seq<char>)
    requires
        no_separator(s),
    ensures
        trimmed(s) == s,
{
    if s.len() > 0 {
        assert(!Separator::CommaOrSpace.splits(s[0]));
        assert(!Separator::CommaOrSpace.splits(s[s.len() - 1]));
    }
}

proof fn lemma_kept_words(parts: Seq<Seq<char>>)
    requires
        forall|i: int| 0 <= i < parts.len() ==> no_separator(#[trigger] parts[i]),
    ensures
        forall|i: int| 0 <= i < kept(parts).len() ==> one_word(#[trigger] kept(parts)[i]),
    decreases parts.len(),
{
    if parts.len() > 0 {
        let rest = parts.drop_last();
        assert forall|i: int| 0 <= i < rest.len() implies no_separator(#[trigger] rest[i]) by {
            assert(rest[i] == parts[i]);
        }
        lemma_kept_words(rest);
        assert(no_separator(parts[parts.len() - 1]));
        lemma_trim_word(parts.last());
        assert forall|i: int| 0 <= i < kept(parts).len() implies one_word(
            #[trigger] kept(parts)[i],
        ) by {
            if i < kept(rest).len() {
                assert(kept(parts)[i] == kept(rest)[i]);
            }
        }
    }
}

proof fn lemma_entries_words(s: Seq<char>)
    ensures
        forall|i: int|
            0 <= i < entries(s, Separator::CommaOrSpace).len() ==> one_word(
                #[trigger] entries(s, Separator::CommaOrSpace)[i],
            ),
{
    lemma_split_clean(s);
    lemma_kept_words(split(s, Separator::CommaOrSpace));
}

/// A separator between two texts splits them.
proof fn lemma_split_append(s: Seq<char>, c: char, t: Seq<char>, sep: Separator)
    requires
        sep.splits(c),
    ensures
        split(s.push(c) + t, sep) == split(s, sep) + split(t, sep),
    decreases t.len(),
{
    if t.len() == 0 {
        assert(s.push(c) + t =~= s.push(c));
        assert(s.push(c).drop_last() =~= s);
        assert(split(s.push(c), sep) =~= split(s, sep) + split(t, sep));
    } else {
        lemma_split_append(s, c, t.drop_last(), sep);
        crate::text::lemma_split_nonempty(t.drop_last(), sep);
        let whole = s.push(c) + t;
        assert(whole.drop_last() =~= s.push(c) + t.drop_last());
        assert(whole.last() == t.last());
        let a = split(s, sep);
        let b = split(t.drop_last(), sep);
        assert((a + b).last() == b.last());
        assert((a + b).drop_last() =~= a + b.drop_last());
        assert(split(whole, sep) =~= a + split(t, sep));
    }
}

proof fn lemma_kept_append(a: Seq<Seq<char>>, b: Seq<Seq<char>>)
    ensures
        kept(a + b) == kept(a) + kept(b),
    decreases b.len(),
{
    if b.len() == 0 {
        assert(a + b =~= a);
        assert(kept(a) + kept(b) =~= kept(a));
    } else {
        lemma_kept_append(a, b.drop_last());
        assert((a + b).drop_last() =~= a + b.drop_last());
        assert((a + b).last() == b.last());
        assert(kept(a + b) =~= kept(a) + kept(b));
    }
}

proof fn lemma_split_word(s: Seq<char>)
    requires
        no_separator(s),
    ensures
        split(s, Separator::CommaOrSpace) == seq![s],
    decreases s.len(),
{
    if s.len() == 0 {
        assert(s =~= Seq::empty());
    } else {
        let t = s.drop_last();
        assert forall|i: int| 0 <= i < t.len() implies !Separator::CommaOrSpace.splits(
            #[trigger] t[i],
        ) by {
            assert(t[i] == s[i]);
        }
        lemma_split_word(t);
        assert(!Separator::CommaOrSpace.splits(s[s.len() - 1]));
        assert(t.push(s.last()) =~= s);
        assert(split(s, Separator::CommaOrSpace) =~= seq![s]);
    }
}

proof fn lemma_kept_one(part: Seq<char>)
    ensures
        kept(seq![part]) == if trimmed(part).len() == 0 {
            Seq::<Seq<char>>::empty()
        } else {
            seq![trimmed(part)]
        },
{
    reveal_with_fuel(kept, 2);
    assert(seq![part].drop_last() =~= Seq::<Seq<char>>::empty());
    assert(seq![part].last() == part);
    assert(kept(seq![part]) =~= if trimmed(part).len() == 0 {
        Seq::<Seq<char>>::empty()
    } else {
        seq![trimmed(part)]
    });
}

/// Words with a separator between each two of them are read back.
proof fn lemma_join_reads_back(words: Seq<Seq<char>>, c: char)
    requires
        Separator::CommaOrSpace.splits(c),
        forall|i: int| 0 <= i < words.len() ==> one_word(#[trigger] words[i]),
    ensures
        entries(joined(words, seq![c]), Separator::CommaOrSpace) == words,
    decreases words.len(),
{
    let sep = Separator::CommaOrSpace;
    if words.len() == 0 {
        let none = Seq::<char>::empty();
        assert(joined(words, seq![c]) == none);
        assert(split(none, sep) == seq![none]);
        assert(trimmed(none) == none);
        lemma_kept_one(none);
        assert(kept(seq![none]) =~= words);
    } else {
        let last = words.last();
        assert(one_word(words[words.len() - 1]));
        lemma_split_word(last);
        lemma_trim_word(last);
        lemma_kept_one(last);
        if words.len() == 1 {
            assert(words =~= seq![last]);
        } else {
            let rest = words.drop_last();
            assert forall|i: int| 0 <= i < rest.len() implies one_word(#[trigger] rest[i]) by {
                assert(rest[i] == words[i]);
            }
            lemma_join_reads_back(rest, c);
            let head = joined(rest, seq![c]);
            assert(joined(words, seq![c]) =~= head.push(c) + last);
            lemma_split_append(head, c, last, sep);
            lemma_kept_append(split(head, sep), split(last, sep));
            assert(rest + seq![last] =~= words);
        }
    }
}

/// The editor shows the entries of a list, all of them and in their order.
pub proof fn law_editor_keeps_the_entries(format: ListFormat, stored: Seq<char>)
    ensures
        format.entries_of(format.edited(stored)) == format.entries_of(stored),
{
    if format == ListFormat::Comma {
        lemma_entries_words(stored);
        reveal_strlit("\n");
        assert("\n"@ =~= seq!['\n']);
        lemma_join_reads_back(format.entries_of(stored), '\n');
    }
}

proof fn lemma_distinct_words(list: Seq<Seq<char>>)
    requires
        forall|i: int| 0 <= i < list.len() ==> one_word(#[trigger] list[i]),
    ensures
        forall|i: int| 0 <= i < distinct(list).len() ==> one_word(#[trigger] distinct(list)[i]),
        distinct(distinct(list)) == distinct(list),
    decreases list.len(),
{
    if list.len() > 0 {
        let rest = list.drop_last();
        assert forall|i: int| 0 <= i < rest.len() implies one_word(#[trigger] rest[i]) by {
            assert(rest[i] == list[i]);
        }
        lemma_distinct_words(rest);
        let before = distinct(rest);
        let after = distinct(list);
        assert(one_word(list[list.len() - 1]));
        assert forall|i: int| 0 <= i < after.len() implies one_word(#[trigger] after[i]) by {
            if i < before.len() {
                assert(after[i] == before[i]);
            }
        }
        if !has_folded(before, list.last()) {
            assert(after.drop_last() =~= before);
            assert(after.last() == list.last());
            assert(distinct(after) =~= after);
        }
    }
}

proof fn lemma_trim_start_bare(s: Seq<char>)
    ensures
        trim_start(s).len() > 0 ==> !white_space(trim_start(s)[0]),
        trim_start(s).len() <= s.len(),
    decreases s.len(),
{
    if s.len() > 0 && white_space(s[0]) {
        lemma_trim_start_bare(s.drop_first());
    }
}

proof fn lemma_trim_end_bare(s: Seq<char>)
    ensures
        trim_end(s).len() > 0 ==> !white_space(trim_end(s).last()),
        trim_end(s).len() > 0 ==> trim_end(s)[0] == s[0],
        trim_end(s).len() <= s.len(),
    decreases s.len(),
{
    if s.len() > 0 && white_space(s.last()) {
        lemma_trim_end_bare(s.drop_last());
        if trim_end(s).len() > 0 {
            assert(s.drop_last()[0] == s[0]);
        }
    }
}

/// Trimming a trimmed text changes nothing.
pub proof fn law_trim_is_idempotent(s: Seq<char>)
    ensures
        trimmed(trimmed(s)) == trimmed(s),
{
    lemma_trim_start_bare(s);
    lemma_trim_end_bare(trim_start(s));
}

/// What was kept is kept again as it is: editing nothing writes nothing new.
pub proof fn law_stored_is_stable(format: ListFormat, text: Seq<char>)
    ensures
        format.stored(format.stored(text)) == format.stored(text),
{
    match format {
        ListFormat::Lines => {
            law_trim_is_idempotent(text);
        },
        ListFormat::Comma => {
            lemma_entries_words(text);
            let list = format.entries_of(text);
            lemma_distinct_words(list);
            reveal_strlit(",");
            assert(","@ =~= seq![',']);
            lemma_join_reads_back(distinct(list), ',');
        },
    }
}

/// A line break behind an edited list, as it comes up while one types, changes nothing that is
/// kept.
pub proof fn law_trailing_newline_is_dropped(format: ListFormat, text: Seq<char>)
    ensures
        format.stored(text.push('\n')) == format.stored(text),
{
    match format {
        ListFormat::Lines => {
            lemma_trim_start_push(text, '\n');
        },
        ListFormat::Comma => {
            let sep = Separator::CommaOrSpace;
            let none = Seq::<char>::empty();
            lemma_split_append(text, '\n', none, sep);
            assert(text.push('\n') + none =~= text.push('\n'));
            lemma_kept_append(split(text, sep), split(none, sep));
            assert(split(none, sep) == seq![none]);
            assert(trimmed(none) == none);
            lemma_kept_one(none);
            assert(kept(split(text, sep)) + kept(split(none, sep)) =~= kept(split(text, sep)));
        },
    }
}

proof fn lemma_trim_start_push(s: Seq<char>, c: char)
    requires
        white_space(c),
    ensures
        trimmed(s.push(c)) == trimmed(s),
    decreases s.len(),
{
    if s.len() == 0 {
        assert(s.push(c).drop_first() =~= s);
        assert(trim_start(s.push(c)) == trim_start(s));
    } else if white_space(s[0]) {
        assert(s.push(c).drop_first() =~= s.drop_first().push(c));
        assert(s.push(c)[0] == s[0]);
        lemma_trim_start_push(s.drop_first(), c);
    } else {
        assert(s.push(c)[0] == s[0]);
        assert(s.push(c).drop_last() =~= s);
        assert(s.push(c).last() == c);
    }
}

/// A text field that is kept in step with what is stored.
#[derive(Debug)]
pub struct TextareaSlot {
    pub format: ListFormat,
    /// What the field holds.
    pub text: String,
    /// What field and store last agreed on, as it is kept.
    pub last_synced: String,
}

impl TextareaSlot {
    /// A field that shows what is stored.
    pub fn new(format: ListFormat, current: &str) -> (r: TextareaSlot)
        ensures
            r.format == format,
            r.text@ == format.edited(current@),
            r.last_synced@ == current@,
    {
        TextareaSlot {
            format,
            text: format.to_editor(current),
            last_synced: current.to_owned(),
        }
    }

    /// The user changed the field, and what is to be stored, where that is anything new. What
    /// makes no difference to what is stored, such as a line break at the end, is not.
    pub fn edited(&mut self, text: String) -> (r: Option<String>)
        ensures
            final(self).format == old(self).format,
            final(self).text == text,
            ({
                let stored = old(self).format.stored(text@);
                &&& final(self).last_synced@ == stored
                &&& (match r {
                    Some(s) => Some(s@),
                    None => None,
                }) == if stored == old(self).last_synced@ {
                    None
                } else {
                    Some(stored)
                }
            }),
    {
        let stored = self.format.to_stored(text.as_str());
        self.text = text;
        if crate::text::same(stored.as_str(), self.last_synced.as_str()) {
            None
        } else {
            self.last_synced = stored.clone();
            Some(stored)
        }
    }

    /// The store holds a value, and whether the field shows another text for it. A value that
    /// the field wrote itself leaves the field alone.
    pub fn sync(&mut self, current: &str) -> (r: bool)
        ensures
            final(self).format == old(self).format,
            r == (old(self).last_synced@ != current@),
            final(self).last_synced@ == current@,
            final(self).text@ == if r {
                old(self).format.edited(current@)
            } else {
                old(self).text@
            },
    {
        if crate::text::same(self.last_synced.as_str(), current) {
            return false;
        }
        self.text = self.format.to_editor(current);
        self.last_synced = current.to_owned();
        true
    }
}

/// The subscriptions that there are.
#[derive(Clone, Copy, Debug, PartialEq, Eq, Structural)]
pub enum SubscriptionKind {
    BtTrackers,
    Ed2kServers,
}

impl SubscriptionKind {
    /// Where the subscribed entries are kept.
    pub fn cache_key(self) -> (r: &'static str)
        ensures
            r@ == match self {
                SubscriptionKind::BtTrackers => "bt_tracker_sub_cache"@,
                SubscriptionKind::Ed2kServers => "ed2k_server_sub_cache"@,
            },
    {
        match self {
            SubscriptionKind::BtTrackers => "bt_tracker_sub_cache",
            SubscriptionKind::Ed2kServers => "ed2k_server_sub_cache",
        }
    }

    pub open spec fn format(self) -> ListFormat {
        match self {
            SubscriptionKind::BtTrackers => ListFormat::Lines,
            SubscriptionKind::Ed2kServers => ListFormat::Comma,
        }
    }

    /// How the subscribed entries are kept.
    pub fn cache_format(self) -> (r: ListFormat)
        ensures
            r == self.format(),
    {
        match self {
            SubscriptionKind::BtTrackers => ListFormat::Lines,
            SubscriptionKind::Ed2kServers => ListFormat::Comma,
        }
    }

    /// Where the time of the last update is kept.
    pub fn updated_at_key(self) -> (r: &'static str)
        ensures
            r@ == match self {
                SubscriptionKind::BtTrackers => "bt_tracker_sub_updated_at"@,
                SubscriptionKind::Ed2kServers => "ed2k_server_sub_updated_at"@,
            },
    {
        match self {
            SubscriptionKind::BtTrackers => "bt_tracker_sub_updated_at",
            SubscriptionKind::Ed2kServers => "ed2k_server_sub_updated_at",
        }
    }

    /// The name of the action that updates the subscription.
    pub fn action(self) -> (r: &'static str)
        ensures
            r@ == match self {
                SubscriptionKind::BtTrackers => "btTrackerRefresh"@,
                SubscriptionKind::Ed2kServers => "ed2kServerRefresh"@,
            },
    {
        match self {
            SubscriptionKind::BtTrackers => "btTrackerRefresh",
            SubscriptionKind::Ed2kServers => "ed2kServerRefresh",
        }
    }

    pub open spec fn prefix_of(self) -> Seq<char> {
        match self {
            SubscriptionKind::BtTrackers => "btTrackerSub"@,
            SubscriptionKind::Ed2kServers => "ed2kServerSub"@,
        }
    }

    /// What the names of the subscription's texts start with.
    pub fn prefix(self) -> (r: &'static str)
        ensures
            r@ == self.prefix_of(),
    {
        match self {
            SubscriptionKind::BtTrackers => "btTrackerSub",
            SubscriptionKind::Ed2kServers => "ed2kServerSub",
        }
    }

    /// The name of one of the subscription's texts.
    pub fn text_key(self, text: &str) -> (r: String)
        ensures
            r@ == self.prefix_of() + text@,
    {
        concat(self.prefix(), text)
    }
}

/// The texts of a subscription's state, in the user's language. The first two are templates for
/// a number and a time.
#[derive(Debug)]
pub struct SubscriptionStrings {
    pub status: String,
    pub updated_at: String,
    pub never_updated: String,
    pub update_now: String,
    pub updating: String,
    pub update_failed: String,
}

/// What is shown of a subscription.
#[derive(Debug, PartialEq, Eq)]
pub struct SubscriptionStatus {
    /// How many entries there are.
    pub status: String,
    /// When they were last updated, or that the last update failed.
    pub detail: String,
    pub failed: bool,
    pub button: String,
    pub busy: bool,
}

/// Whether this is what is shown of a subscription: the number of its entries; that the last
/// update failed, or else when it was, where there was one; and a button that says what it does.
pub open spec fn status_shows(
    kind: SubscriptionKind,
    cache: Seq<char>,
    updated_at: i64,
    updated_text: Seq<char>,
    busy: bool,
    last_failed: bool,
    strings: &SubscriptionStrings,
    shown: SubscriptionStatus,
) -> bool {
    &&& shown.status@ == filled(
        strings.status@,
        "n"@,
        decimal(kind.format().entries_of(cache).len()),
    )
    &&& shown.detail@ == if last_failed {
        strings.update_failed@
    } else if updated_at > 0 {
        filled(strings.updated_at@, "time"@, updated_text)
    } else {
        strings.never_updated@
    }
    &&& shown.failed == last_failed
    &&& shown.button@ == if busy {
        strings.updating@
    } else {
        strings.update_now@
    }
    &&& shown.busy == busy
}

/// What is shown of a subscription. `updated_at` is the time of the last update in seconds, and
/// `updated_text` that time as it is written.
pub fn subscription_status(
    kind: SubscriptionKind,
    cache: &str,
    updated_at: i64,
    updated_text: &str,
    busy: bool,
    last_failed: bool,
    strings: &SubscriptionStrings,
) -> (r: SubscriptionStatus)
    ensures
        status_shows(kind, cache@, updated_at, updated_text@, busy, last_failed, strings, r),
{
    let count = number(kind.cache_format().count(cache) as u64);
    let detail = if last_failed {
        strings.update_failed.clone()
    } else if updated_at > 0 {
        fill(strings.updated_at.as_str(), "time", updated_text)
    } else {
        strings.never_updated.clone()
    };
    SubscriptionStatus {
        status: fill(strings.status.as_str(), "n", count.as_str()),
        detail,
        failed: last_failed,
        button: if busy {
            strings.updating.clone()
        } else {
            strings.update_now.clone()
        },
        busy,
    }
}

/// Whether an update failed, by what its reply says of success; a failed call or a reply that
/// does not say counts as a failure.
pub fn update_failed(success: Option<bool>) -> (r: bool)
    ensures
        r == (success != Some(true)),
{
    match success {
        Some(ok) => !ok,
        None => true,
    }
}

/// A date of the calendar.
pub struct CivilDate {
    pub year: int,
    pub month: int,
    pub day: int,
}

/// The date of a day, counted from the first day of 1970, in the Gregorian calendar. It is found
/// by counting from the first of March of the year 0, so that a leap day ends its year: cycles of
/// 400 years, then years, then months, which come in runs of 153 days for five.
pub open spec fn civil(days: int) -> CivilDate {
    let z = days + 719_468;
    let era = z / 146_097;
    let day_of_era = z % 146_097;
    let year_of_era = (day_of_era - day_of_era / 1_460 + day_of_era / 36_524 - day_of_era / 146_096)
        / 365;
    let day_of_year = day_of_era - (365 * year_of_era + year_of_era / 4 - year_of_era / 100);
    let shifted = (5 * day_of_year + 2) / 153;
    let month = if shifted < 10 {
        shifted + 3
    } else {
        shifted - 9
    };
    CivilDate {
        year: year_of_era + 400 * era + if month <= 2 {
            1int
        } else {
            0
        },
        month,
        day: day_of_year - (153 * shifted + 2) / 5 + 1,
    }
}

/// A number with zeros in front up to four digits.
pub open spec fn four_digits(n: nat) -> Seq<char> {
    if n < 10 {
        "000"@ + decimal(n)
    } else if n < 100 {
        "00"@ + decimal(n)
    } else if n < 1000 {
        "0"@ + decimal(n)
    } else {
        decimal(n)
    }
}

/// A year as it is written: four digits, or a sign and at least four digits where four without a
/// sign do not do.
pub open spec fn year_text(year: int) -> Seq<char> {
    if 0 <= year <= 9_999 {
        four_digits(year as nat)
    } else if year < 0 {
        "-"@ + four_digits((-year) as nat)
    } else {
        "+"@ + four_digits(year as nat)
    }
}

/// The date and the minute of a moment, given in seconds of local time since 1970 began there.
pub open spec fn minute_text(local: int) -> Seq<char> {
    let date = civil(local / 86_400);
    let minute = local % 86_400 / 60;
    year_text(date.year) + "-"@ + padded(date.month as nat) + "-"@ + padded(date.day as nat) + " "@
        + padded((minute / 60) as nat) + ":"@ + padded((minute % 60) as nat)
}

/// Whether a text is the date and the minute of a moment where local time is ahead of universal
/// time by a number of seconds, less than a day.
pub open spec fn told_at(secs: i64, offset: int, text: Seq<char>) -> bool {
    -86_400 < offset < 86_400 && text == minute_text(secs + offset)
}

/// The first and the last second that a calendar date is known for.
pub const FIRST_SECOND: i64 = -8_334_601_228_800;

pub const LAST_SECOND: i64 = 8_210_266_876_799;

/// `Local.timestamp_opt` and `DateTime::format` of chrono: the local date and time of a moment
/// given in seconds, written as `YYYY-MM-DD HH:MM`; nothing where the moment is out of chrono's
/// range, from the year -262143 to the year 262142. Which offset local time has depends on the
/// machine's time zone; chrono has none of a day or more. Where the machine's zone is set to such
/// an offset, by mistake, chrono panics.
#[verifier::external_body]
fn local_minute(secs: i64) -> (r: Option<String>)
    ensures
        r is Some <==> FIRST_SECOND <= secs <= LAST_SECOND,
        r is Some ==> exists|offset: int| #[trigger] told_at(secs, offset, (r->0)@),
{
    chrono::TimeZone::timestamp_opt(&chrono::Local, secs, 0).single().map(
        |time| time.format("%Y-%m-%d %H:%M").to_string(),
    )
}

/// The local date and time that was found for a moment; nothing where none was.
pub fn unix_text(found: Option<String>) -> (r: String)
    ensures
        r@ == match found {
            Some(text) => text@,
            None => Seq::empty(),
        },
{
    match found {
        Some(text) => text,
        None => String::new(),
    }
}

/// Whether a text is the date and time of a moment in some zone; nothing where the moment is out
/// of range.
pub open spec fn moment_text(secs: i64, text: Seq<char>) -> bool {
    if FIRST_SECOND <= secs <= LAST_SECOND {
        exists|offset: int| #[trigger] told_at(secs, offset, text)
    } else {
        text.len() == 0
    }
}

/// The local date and time of a moment given in seconds; nothing where it is out of range.
pub fn format_unix(secs: i64) -> (r: String)
    ensures
        moment_text(secs, r@),
{
    unix_text(local_minute(secs))
}

/// What is shown of a subscription, with the time of the last update as it is told here. Which
/// date and time that is depends on the machine's time zone.
pub fn status_item(
    kind: SubscriptionKind,
    cache: &str,
    updated_at: i64,
    busy: bool,
    last_failed: bool,
    strings: &SubscriptionStrings,
) -> (r: SubscriptionStatus)
    ensures
        exists|time: Seq<char>| #[trigger]
            moment_text(updated_at, time) && status_shows(
                kind,
                cache@,
                updated_at,
                time,
                busy,
                last_failed,
                strings,
                r,
            ),
{
    let time = format_unix(updated_at);
    assert(moment_text(updated_at, time@));
    subscription_status(kind, cache, updated_at, time.as_str(), busy, last_failed, strings)
}

/// What is kept of a list of servers names none twice, in whatever case it is written, and names
/// every one of them.
pub proof fn law_list_names_each_once(list: Seq<Seq<char>>, entry: Seq<char>)
    ensures
        list.contains(entry) ==> has_folded(distinct(list), entry),
        distinct(list).contains(entry) ==> list.contains(entry),
        forall|i: int, j: int|
            0 <= i < j < distinct(list).len() ==> !same_folded(
                #[trigger] distinct(list)[i],
                #[trigger] distinct(list)[j],
            ),
    decreases list.len(),
{
    if list.len() > 0 {
        let rest = list.drop_last();
        law_list_names_each_once(rest, entry);
        let before = distinct(rest);
        let after = distinct(list);
        if has_folded(before, entry) {
            let i = choose|i: int| 0 <= i < before.len() && same_folded(#[trigger] before[i], entry);
            assert(after[i] == before[i]);
        }
        if list.contains(entry) {
            let i = choose|i: int| 0 <= i < list.len() && list[i] == entry;
            if i < rest.len() {
                assert(rest[i] == entry);
            } else if !has_folded(before, list.last()) {
                assert(after[before.len() as int] == entry);
                assert(same_folded(after[before.len() as int], entry));
            }
        }
        if after.contains(entry) {
            let i = choose|i: int| 0 <= i < after.len() && after[i] == entry;
            if i < before.len() {
                assert(before[i] == entry);
                let k = choose|k: int| 0 <= k < rest.len() && rest[k] == entry;
                assert(list[k] == entry);
            } else {
                assert(list[list.len() - 1] == entry);
            }
        }
        assert forall|i: int, j: int| 0 <= i < j < after.len() implies !same_folded(
            #[trigger] after[i],
            #[trigger] after[j],
        ) by {
            if j < before.len() {
                assert(before[i] == after[i] && before[j] == after[j]);
            } else {
                assert(after[i] == before[i]);
                assert(after[j] == list.last());
            }
        }
    }
}

/// The field writes a change only where what is kept changes, and writes what is kept; showing what
/// is stored already writes nothing into the field.
pub proof fn law_field_writes_changes_only(
    slot: &mut TextareaSlot,
    again: &mut TextareaSlot,
    text: String,
    written: Option<String>,
    rewritten: Option<String>,
    stored: String,
    raw: &str,
)
    requires
        call_ensures(TextareaSlot::edited, (slot, text), written),
        *old(again) == *final(slot),
        call_ensures(TextareaSlot::edited, (again, text), rewritten),
        raw@ == text@,
        call_ensures(ListFormat::to_stored, (old(slot).format, raw), stored),
    ensures
        written is None <==> stored@ == old(slot).last_synced@,
        written matches Some(w) ==> w@ == stored@,
        rewritten is None,
        final(slot).text@ == text@,
        final(slot).last_synced@ == stored@,
{
}

/// A store that changed elsewhere is shown in the field; one that did not leaves what is being
/// typed alone.
pub proof fn law_field_follows_the_store(
    slot: &mut TextareaSlot,
    current: &str,
    changed: bool,
    shown: String,
)
    requires
        call_ensures(TextareaSlot::sync, (slot, current), changed),
        call_ensures(ListFormat::to_editor, (old(slot).format, current), shown),
    ensures
        changed <==> old(slot).last_synced@ != current@,
        changed ==> final(slot).text@ == shown@,
        !changed ==> final(slot).text@ == old(slot).text@,
        final(slot).last_synced@ == current@,
{
}

/// The status of a subscription counts its entries, says first that the last update failed, then
/// when it was, then that there was none; the button says whether one is under way.
pub proof fn law_status_says_how_it_stands(
    kind: SubscriptionKind,
    cache: &str,
    updated_at: i64,
    time: &str,
    busy: bool,
    failed: bool,
    strings: &SubscriptionStrings,
    n: usize,
    shown: SubscriptionStatus,
)
    requires
        call_ensures(
            ListFormat::count,
            (
                if kind == SubscriptionKind::BtTrackers {
                    ListFormat::Lines
                } else {
                    ListFormat::Comma
                },
                cache,
            ),
            n,
        ),
        call_ensures(
            subscription_status,
            (kind, cache, updated_at, time, busy, failed, strings),
            shown,
        ),
    ensures
        shown.status@ == filled(strings.status@, "n"@, decimal(n as nat)),
        failed ==> shown.failed && shown.detail@ == strings.update_failed@,
        !failed && updated_at > 0 ==> shown.detail@ == filled(strings.updated_at@, "time"@, time@),
        !failed && updated_at <= 0 ==> shown.detail@ == strings.never_updated@,
        busy ==> shown.busy && shown.button@ == strings.updating@,
        !busy ==> !shown.busy && shown.button@ == strings.update_now@,
{
}

/// Only an update that reports success has not failed.
pub proof fn law_silence_is_a_failure(yes: bool, no: bool, none: bool)
    requires
        call_ensures(update_failed, (Some(true),), yes),
        call_ensures(update_failed, (Some(false),), no),
        call_ensures(update_failed, (None,), none),
    ensures
        !yes && no && none,
{
}

/// The two subscriptions are kept apart: each has its own store, time, action and texts.
pub proof fn law_subscriptions_are_kept_apart(
    trackers: (&str, &str, &str, &str),
    servers: (&str, &str, &str, &str),
)
    requires
        call_ensures(SubscriptionKind::cache_key, (SubscriptionKind::BtTrackers,), trackers.0),
        call_ensures(SubscriptionKind::updated_at_key, (SubscriptionKind::BtTrackers,), trackers.1),
        call_ensures(SubscriptionKind::action, (SubscriptionKind::BtTrackers,), trackers.2),
        call_ensures(SubscriptionKind::prefix, (SubscriptionKind::BtTrackers,), trackers.3),
        call_ensures(SubscriptionKind::cache_key, (SubscriptionKind::Ed2kServers,), servers.0),
        call_ensures(SubscriptionKind::updated_at_key, (SubscriptionKind::Ed2kServers,), servers.1),
        call_ensures(SubscriptionKind::action, (SubscriptionKind::Ed2kServers,), servers.2),
        call_ensures(SubscriptionKind::prefix, (SubscriptionKind::Ed2kServers,), servers.3),
    ensures
        trackers.0@[0] == 'b' && trackers.1@[0] == 'b' && trackers.2@[0] == 'b' && trackers.3@[0]
            == 'b',
        servers.0@[0] == 'e' && servers.1@[0] == 'e' && servers.2@[0] == 'e' && servers.3@[0] == 'e',
        trackers.0@ != trackers.1@ && servers.0@ != servers.1@,
{
    reveal_strlit("bt_tracker_sub_cache");
    reveal_strlit("ed2k_server_sub_cache");
    reveal_strlit("bt_tracker_sub_updated_at");
    reveal_strlit("ed2k_server_sub_updated_at");
    reveal_strlit("btTrackerRefresh");
    reveal_strlit("ed2kServerRefresh");
    reveal_strlit("btTrackerSub");
    reveal_strlit("ed2kServerSub");
    assert(trackers.0@.len() != trackers.1@.len());
    assert(servers.0@.len() != servers.1@.len());
}

/// The clock part of a moment is its hour and minute, and its date part that of its day.
pub proof fn law_moment_has_its_clock(days: int, hour: int, minute: int, second: int)
    requires
        0 <= hour < 24,
        0 <= minute < 60,
        0 <= second < 60,
    ensures
        minute_text(days * 86_400 + hour * 3600 + minute * 60 + second) == minute_text(
            days * 86_400,
        ).take(minute_text(days * 86_400).len() - 5) + padded(hour as nat) + ":"@ + padded(
            minute as nat,
        ),
{
    let at = days * 86_400 + hour * 3600 + minute * 60 + second;
    let rest = hour * 3600 + minute * 60 + second;
    assert(at / 86_400 == days && at % 86_400 == rest);
    assert((days * 86_400) / 86_400 == days && (days * 86_400) % 86_400 == 0);
    assert(rest / 60 == hour * 60 + minute);
    assert((hour * 60 + minute) / 60 == hour && (hour * 60 + minute) % 60 == minute);
    lemma_padded_reads_back(0);
    reveal_strlit(":");
    let date = civil(days);
    let day = year_text(date.year) + "-"@ + padded(date.month as nat) + "-"@ + padded(
        date.day as nat,
    ) + " "@;
    let start = minute_text(days * 86_400);
    assert(start =~= day + (padded(0) + ":"@ + padded(0)));
    assert((padded(0) + ":"@ + padded(0)).len() == 5);
    assert(start.take(start.len() - 5) =~= day);
}

} // verus!
