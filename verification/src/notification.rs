//! System notifications: what they say, and under which name and icon they appear.

use vstd::prelude::*;

use crate::text::{concat, decimal, fill, filled, number, same, texts};
use crate::text_laws::law_filling_puts_the_value_in;

verus! {

/// The name under which notifications appear.
pub const APP_NAME: &'static str = "FluxDown";

/// The name of the icon's file in the data directory.
pub const ICON_FILE_NAME: &'static str = "notification_icon.png";

/// The desktop entry of an installed program; it stands for the icon where that could not be
/// written.
pub const LINUX_DESKTOP_ENTRY: &'static str = "com.fluxdown.app";

/// Shows notifications under the program's own identity, which is prepared once.
#[derive(Debug)]
pub struct Notifier {
    pub data_dir: String,
    /// The icon's path, once the identity was prepared; nothing inside where the icon could not
    /// be written.
    pub prepared: Option<Option<String>>,
}

impl Notifier {
    pub fn new(data_dir: String) -> (r: Notifier)
        ensures
            r.data_dir == data_dir,
            r.prepared is None,
    {
        Notifier { data_dir, prepared: None }
    }

    /// Keeps the icon's path, unless the identity was prepared before.
    pub fn prepare(&mut self, icon: Option<String>)
        ensures
            final(self).data_dir == old(self).data_dir,
            final(self).prepared == match old(self).prepared {
                Some(kept) => Some(kept),
                None => Some(icon),
            },
    {
        if self.prepared.is_none() {
            self.prepared = Some(icon);
        }
    }

    /// The icon of a notification: the written file, or the name of the desktop entry.
    pub fn icon(&self) -> (r: String)
        ensures
            r@ == match self.prepared {
                Some(Some(path)) => path@,
                _ => LINUX_DESKTOP_ENTRY@,
            },
    {
        match &self.prepared {
            Some(Some(path)) => path.clone(),
            _ => LINUX_DESKTOP_ENTRY.to_owned(),
        }
    }
}

/// Whether the icon must be written: there is no file, or it holds something else.
pub fn icon_outdated(existing: Option<&Vec<u8>>, icon: &Vec<u8>) -> (r: bool)
    ensures
        r == !(existing is Some && (existing->0)@ == icon@),
{
    match existing {
        None => true,
        Some(bytes) => {
            if bytes.len() != icon.len() {
                return true;
            }
            let mut i: usize = 0;
            while i < bytes.len()
                invariant
                    i <= bytes@.len(),
                    existing == Some(bytes),
                    bytes@.len() == icon@.len(),
                    forall|k: int| 0 <= k < i ==> bytes@[k] == icon@[k],
                decreases bytes@.len() - i,
            {
                if bytes[i] != icon[i] {
                    return true;
                }
                i += 1;
            }
            assert(bytes@ =~= icon@);
            false
        },
    }
}

/// The arguments that make `osascript` show a notification. Title and body are handed over as
/// arguments of the script and are no part of its source, so that no character of theirs has a
/// meaning in it.
pub fn osascript_notification_args<'a>(title: &'a str, body: &'a str) -> (r: [&'a str; 8])
    ensures
        r@.len() == 8,
        r@[0]@ == "-e"@,
        r@[1]@ == "on run argv"@,
        r@[2]@ == "-e"@,
        r@[3]@ == "display notification (item 2 of argv) with title (item 1 of argv)"@,
        r@[4]@ == "-e"@,
        r@[5]@ == "end run"@,
        r@[6]@ == title@,
        r@[7]@ == body@,
{
    [
        "-e",
        "on run argv",
        "-e",
        "display notification (item 2 of argv) with title (item 1 of argv)",
        "-e",
        "end run",
        title,
        body,
    ]
}

/// What a notification says of downloads that are done. One: its name. Several: how many, and
/// the last one's name with the number of the others. `text` gives the words for a key, with a
/// number filled in.
pub fn completion_text<F: Fn(&'static str, Option<usize>) -> String>(
    file_names: &Vec<String>,
    text: F,
) -> (r: Option<(String, String)>)
    requires
        forall|key: &'static str, count: Option<usize>| #[trigger] call_requires(text, (key, count)),
    ensures
        match r {
            None => file_names@.len() == 0,
            Some((title, body)) => {
                &&& file_names@.len() > 0
                &&& file_names@.len() == 1 ==> call_ensures(
                    text,
                    ("downloadCompleted", None),
                    title,
                ) && body@ == file_names@[0]@
                &&& file_names@.len() > 1 ==> call_ensures(
                    text,
                    ("batchDownloadCompleted", Some(file_names@.len() as usize)),
                    title,
                ) && exists|more: String| #[trigger]
                    call_ensures(
                        text,
                        ("andMoreFiles", Some((file_names@.len() - 1) as usize)),
                        more,
                    ) && body@ == file_names@.last()@ + " "@ + more@
            },
        },
{
    let count: usize = file_names.len();
    if count == 0 {
        return None;
    }
    let last = &file_names[count - 1];
    if count == 1 {
        let title = text("downloadCompleted", None);
        return Some((title, last.clone()));
    }
    let title = text("batchDownloadCompleted", Some(count));
    let more = text("andMoreFiles", Some(count - 1));
    let mut body = concat(last.as_str(), " ");
    body.append(more.as_str());
    Some((title, body))
}

/// The English words for a key; a key without words stands for itself.
pub open spec fn english_template(key: Seq<char>) -> Seq<char> {
    if key == "downloadCompleted"@ {
        "Download Complete"@
    } else if key == "batchDownloadCompleted"@ {
        "{count} Downloads Complete"@
    } else if key == "andMoreFiles"@ {
        "and {count} more"@
    } else {
        key
    }
}

/// The English words for a key, with a number filled in.
pub fn english_text(key: &str, count: Option<usize>) -> (r: String)
    ensures
        r@ == match count {
            None => english_template(key@),
            Some(n) => filled(english_template(key@), "count"@, decimal(n as nat)),
        },
{
    let template = if same(key, "downloadCompleted") {
        "Download Complete"
    } else if same(key, "batchDownloadCompleted") {
        "{count} Downloads Complete"
    } else if same(key, "andMoreFiles") {
        "and {count} more"
    } else {
        key
    };
    match count {
        None => template.to_owned(),
        Some(n) => {
            let digits = number(n as u64);
            fill(template, "count", digits.as_str())
        },
    }
}

/// The words of a notification in one language.
#[derive(Debug)]
pub struct CompletionStrings {
    pub download_completed: String,
    /// With a place for the number of downloads, `{count}`.
    pub batch_download_completed: String,
    /// With a place for the number of the others, `{count}`.
    pub and_more_files: String,
}

impl CompletionStrings {
    /// The words for a key; a key without words stands for itself.
    pub open spec fn template(self, key: Seq<char>) -> Seq<char> {
        if key == "downloadCompleted"@ {
            self.download_completed@
        } else if key == "batchDownloadCompleted"@ {
            self.batch_download_completed@
        } else if key == "andMoreFiles"@ {
            self.and_more_files@
        } else {
            key
        }
    }

    /// The words for a key, with a number filled in.
    pub fn text(&self, key: &str, count: Option<usize>) -> (r: String)
        ensures
            r@ == match count {
                None => self.template(key@),
                Some(n) => filled(self.template(key@), "count"@, decimal(n as nat)),
            },
    {
        let template = if same(key, "downloadCompleted") {
            self.download_completed.as_str()
        } else if same(key, "batchDownloadCompleted") {
            self.batch_download_completed.as_str()
        } else if same(key, "andMoreFiles") {
            self.and_more_files.as_str()
        } else {
            key
        };
        match count {
            None => template.to_owned(),
            Some(n) => {
                let digits = number(n as u64);
                fill(template, "count", digits.as_str())
            },
        }
    }
}

/// Title and body of the notification on downloads that are done, in the words that `template`
/// has for each key.
pub open spec fn notice_of(
    names: Seq<Seq<char>>,
    template: spec_fn(Seq<char>) -> Seq<char>,
) -> Option<(Seq<char>, Seq<char>)> {
    if names.len() == 0 {
        None
    } else if names.len() == 1 {
        Some((template("downloadCompleted"@), names[0]))
    } else {
        Some(
            (
                filled(template("batchDownloadCompleted"@), "count"@, decimal(names.len())),
                names.last() + " "@ + filled(
                    template("andMoreFiles"@),
                    "count"@,
                    decimal((names.len() - 1) as nat),
                ),
            ),
        )
    }
}

/// The given words for each key, or English ones where there are none.
pub open spec fn notice_words(strings: Option<&CompletionStrings>) -> spec_fn(Seq<char>) -> Seq<char> {
    match strings {
        None => |key: Seq<char>| english_template(key),
        Some(words) => |key: Seq<char>| words.template(key),
    }
}

/// The notification on downloads that are done, in the given words, or in English where there
/// are none.
pub fn completion_notice(file_names: &Vec<String>, strings: Option<&CompletionStrings>) -> (r: Option<
    (String, String),
>)
    ensures
        (match r {
            None => None,
            Some((title, body)) => Some((title@, body@)),
        }) == notice_of(texts(file_names@), notice_words(strings)),
{
    let ghost names = texts(file_names@);
    proof {
        let count = file_names.len();
        assert(count as nat == names.len());
        if count > 0 {
            assert(names.last() == file_names@.last()@);
            assert((count - 1) as usize as nat == (names.len() - 1) as nat);
        }
    }
    match strings {
        None => completion_text(file_names, english_text),
        Some(words) => {
            let text = |key: &'static str, count: Option<usize>| -> (r: String)
                ensures
                    r@ == match count {
                        None => words.template(key@),
                        Some(n) => filled(words.template(key@), "count"@, decimal(n as nat)),
                    },
                { words.text(key, count) };
            completion_text(file_names, text)
        },
    }
}

/// Nothing is said where no download was completed; one is named under the title for one; of
/// several the last is named with the number of the others, under a title with their number.
pub proof fn law_notice_names_what_was_completed(
    file_names: &Vec<String>,
    strings: &CompletionStrings,
    notice: Option<(String, String)>,
)
    requires
        call_ensures(completion_notice, (file_names, Some(strings)), notice),
    ensures
        file_names@.len() == 0 <==> notice is None,
        file_names@.len() == 1 ==> (notice->0).0@ == strings.download_completed@ && (notice->0).1@
            == file_names@[0]@,
        file_names@.len() > 1 ==> {
            &&& (notice->0).0@ == filled(
                strings.batch_download_completed@,
                "count"@,
                decimal(file_names@.len()),
            )
            &&& (notice->0).1@ == file_names@.last()@ + " "@ + filled(
                strings.and_more_files@,
                "count"@,
                decimal((file_names@.len() - 1) as nat),
            )
        },
{
    reveal_strlit("downloadCompleted");
    reveal_strlit("batchDownloadCompleted");
    reveal_strlit("andMoreFiles");
    assert("downloadCompleted"@.len() == 17);
    assert("batchDownloadCompleted"@.len() == 22);
    assert("andMoreFiles"@.len() == 12);
    assert(texts(file_names@).len() == file_names@.len());
}

/// Title and body of a notification are handed over as they are, each in its place, and never as
/// part of the script.
pub proof fn law_notification_text_is_no_script(
    title: &str,
    body: &str,
    other: &str,
    args: [&str; 8],
    same_title: [&str; 8],
)
    requires
        call_ensures(osascript_notification_args, (title, body), args),
        call_ensures(osascript_notification_args, (title, other), same_title),
    ensures
        args@[6]@ == title@,
        args@[7]@ == body@,
        forall|i: int| 0 <= i < 7 ==> (#[trigger] args@[i])@ == same_title@[i]@,
{
    assert forall|i: int| 0 <= i < 7 implies (#[trigger] args@[i])@ == same_title@[i]@ by {
        assert(i == 0 || i == 1 || i == 2 || i == 3 || i == 4 || i == 5 || i == 6);
    }
}

/// The icon is prepared once: what was found first stays, and the name of the entry stands in
/// where none was found.
pub proof fn law_icon_is_prepared_once(
    first: &mut Notifier,
    second: &mut Notifier,
    found: Option<String>,
    other: Option<String>,
    icon: String,
)
    requires
        old(first).prepared is None,
        call_ensures(Notifier::prepare, (first, found), ()),
        *old(second) == *final(first),
        call_ensures(Notifier::prepare, (second, other), ()),
        call_ensures(Notifier::icon, (&*final(second),), icon),
    ensures
        found matches Some(path) ==> icon@ == path@,
        found is None ==> icon@ == LINUX_DESKTOP_ENTRY@,
{
}

/// An icon is written anew exactly where there is none or another one.
pub proof fn law_icon_is_written_when_it_differs(
    existing: &Vec<u8>,
    icon: &Vec<u8>,
    differs: bool,
    missing: bool,
)
    requires
        call_ensures(icon_outdated, (Some(existing), icon), differs),
        call_ensures(icon_outdated, (None, icon), missing),
    ensures
        missing,
        differs <==> existing@ != icon@,
{
}

/// Without words of the user's language the notice is in English, with the numbers in their places.
pub proof fn law_english_stands_in(
    one: String,
    n: usize,
    many: String,
    more: String,
)
    requires
        call_ensures(english_text, ("downloadCompleted", None), one),
        call_ensures(english_text, ("batchDownloadCompleted", Some(n)), many),
        call_ensures(english_text, ("andMoreFiles", Some(n)), more),
    ensures
        one@ == "Download Complete"@,
        many@ == decimal(n as nat) + " Downloads Complete"@,
        more@ == "and "@ + decimal(n as nat) + " more"@,
{
    reveal_strlit("downloadCompleted");
    reveal_strlit("batchDownloadCompleted");
    reveal_strlit("andMoreFiles");
    assert("downloadCompleted"@.len() == 17);
    assert("batchDownloadCompleted"@.len() == 22);
    assert("andMoreFiles"@.len() == 12);
    reveal_strlit("count");
    reveal_strlit("{count} Downloads Complete");
    reveal_strlit(" Downloads Complete");
    reveal_strlit("and {count} more");
    reveal_strlit("and ");
    reveal_strlit(" more");
    let place = seq!['{'] + "count"@ + seq!['}'];
    let number = decimal(n as nat);
    let none = Seq::<char>::empty();
    assert("{count} Downloads Complete"@ =~= none + place + " Downloads Complete"@);
    law_filling_puts_the_value_in(none, "count"@, " Downloads Complete"@, number);
    law_filling_puts_the_value_in(" Downloads Complete"@, "count"@, none, number);
    assert(none + number + " Downloads Complete"@ =~= number + " Downloads Complete"@);
    assert("and {count} more"@ =~= "and "@ + place + " more"@);
    law_filling_puts_the_value_in("and "@, "count"@, " more"@, number);
    law_filling_puts_the_value_in(" more"@, "count"@, none, number);
}

} // verus!
