//! The folder for a captured download, by the category that its file name falls under.
//!
//! Only visible categories count, by position. The first ordinary one that takes the name and has
//! a folder decides. A name that no ordinary category takes goes to the folder of the category
//! for the rest. Where the name has no dot, the last part of the link's path stands in for it.

use vstd::prelude::*;
use vstd::utf8::{decode_utf8, encode_utf8, valid_utf8};

use crate::capture_link::{decode_bytes, decoded_bytes};
use crate::text::{
    after_last, contains_char, folded, opt_text, same, same_folded, same_ignoring_case, strip_leading,
    text_after_last, texts, trim, trimmed, without_leading,
};
use crate::text_laws::{law_after_the_last, law_leading_character_is_taken_off};

verus! {

/// A category of files.
#[derive(Debug)]
pub struct CustomCategoryDto {
    pub id: String,
    pub name: String,
    /// `regex` for names that a pattern takes; else the extensions count.
    pub match_mode: String,
    pub regex_pattern: String,
    pub extensions: Vec<String>,
    pub position: i64,
    pub visible: bool,
    /// What the category stands for where it is built in: `all`, `other` or a sort of file.
    pub builtin_type: Option<String>,
    /// Empty where it has no folder of its own.
    pub save_dir: String,
}

/// What a pattern of the crate regex finds in a text, with case left out of account or not;
/// nothing where the pattern is none.
pub uninterp spec fn regex_finds(pattern: Seq<char>, text: Seq<char>, any_case: bool) -> Option<bool>;

/// `RegexBuilder::build` of regex, after `case_insensitive`, and `Regex::is_match`: whether the
/// pattern is found in the text; nothing where the pattern cannot be built. The result depends on
/// the three arguments alone.
#[verifier::external_body]
fn regex_search(pattern: &str, text: &str, any_case: bool) -> (r: Option<bool>)
    ensures
        r == regex_finds(pattern@, text@, any_case),
{
    match regex::RegexBuilder::new(pattern).case_insensitive(any_case).build() {
        Ok(regex) => Some(regex.is_match(text)),
        Err(_) => None,
    }
}

/// What `Url::parse` of url finds as the segments of an address's path.
pub uninterp spec fn url_segments(url: Seq<char>) -> Option<Seq<Seq<char>>>;

/// `Url::parse` of url, by way of reqwest, and the `path_segments` of what it gives; nothing where
/// the text is no address or its path has no segments. The result depends on the text alone.
#[verifier::external_body]
fn path_segments(url: &str) -> (r: Option<Vec<String>>)
    ensures
        (match r {
            Some(segments) => Some(texts(segments@)),
            None => None,
        }) == url_segments(url@),
{
    let parsed = reqwest::Url::parse(url).ok()?;
    Some(parsed.path_segments()?.map(str::to_owned).collect())
}

/// The last segment of an address's path.
pub open spec fn last_segment_of(url: Seq<char>) -> Option<Seq<char>> {
    match url_segments(url) {
        Some(segments) => if segments.len() == 0 {
            None
        } else {
            Some(segments.last())
        },
        None => None,
    }
}

/// The last segment of an address's path.
fn last_segment(url: &str) -> (r: Option<String>)
    ensures
        opt_text(r) == last_segment_of(url@),
{
    match path_segments(url) {
        None => None,
        Some(segments) => {
            let count: usize = segments.len();
            assert(texts(segments@).len() == count);
            if count == 0 {
                None
            } else {
                assert(texts(segments@).last() == segments@[count - 1]@);
                Some(segments[count - 1].clone())
            }
        },
    }
}

/// What `String::from_utf8_lossy` of std makes of bytes.
pub uninterp spec fn lossy_text(bytes: Seq<u8>) -> Seq<char>;

/// `String::from_utf8_lossy` of std: the text that the bytes encode where they are UTF-8. Where
/// they are not, a replacement character stands for what is wrong; of that only the name of the
/// result is stated, which depends on the bytes alone.
#[verifier::external_body]
fn utf8_lossy(bytes: &Vec<u8>) -> (r: String)
    ensures
        r@ == lossy_text(bytes@),
        valid_utf8(bytes@) ==> r@ == decode_utf8(bytes@),
{
    String::from_utf8_lossy(bytes).into_owned()
}

/// Decodes the `%XX` sequences of a part of a path. A malformed sequence stays; what is no UTF-8
/// afterwards is replaced.
pub fn percent_decode(input: &str) -> (r: String)
    ensures
        r@ == lossy_text(decoded_bytes(encode_utf8(input@))),
        valid_utf8(decoded_bytes(encode_utf8(input@))) ==> r@ == decode_utf8(
            decoded_bytes(encode_utf8(input@)),
        ),
{
    utf8_lossy(&decode_bytes(input))
}

/// The file name in a decoded segment of a path: one with a dot.
pub open spec fn dotted_name(decoded: Option<Seq<char>>) -> Option<Seq<char>> {
    match decoded {
        Some(name) => if name.contains('.') {
            Some(name)
        } else {
            None
        },
        None => None,
    }
}

/// The last segment of an address's path, decoded.
pub open spec fn decoded_segment(url: Seq<char>) -> Option<Seq<char>> {
    match last_segment_of(trimmed(url)) {
        Some(segment) => Some(lossy_text(decoded_bytes(encode_utf8(segment)))),
        None => None,
    }
}

/// The file name that an address ends with, where it has a dot.
pub fn file_name_from_url(url: &str) -> (r: Option<String>)
    ensures
        opt_text(r) == dotted_name(decoded_segment(url@)),
{
    let url = trim(url);
    match last_segment(url.as_str()) {
        None => None,
        Some(segment) => {
            let decoded = percent_decode(segment.as_str());
            if contains_char(decoded.as_str(), '.') {
                Some(decoded)
            } else {
                None
            }
        },
    }
}

/// Whether an extension is among those of a category, case and leading dots left out of account.
pub open spec fn extension_listed(extensions: Seq<String>, extension: Seq<char>) -> bool {
    exists|i: int|
        0 <= i < extensions.len() && same_folded(
            without_leading((#[trigger] extensions[i])@, '.'),
            extension,
        )
}

/// Whether a category takes a name, given what its pattern finds in it. A pattern that is empty
/// or cannot be built takes nothing.
pub open spec fn takes_name(
    category: CustomCategoryDto,
    name: Seq<char>,
    found: Option<bool>,
) -> bool {
    if category.match_mode@ == "regex"@ {
        category.regex_pattern@.len() > 0 && found == Some(true)
    } else {
        match after_last(name, '.') {
            Some(extension) => extension.len() > 0 && extension_listed(
                category.extensions@,
                extension,
            ),
            None => false,
        }
    }
}

/// Whether a category takes a name, given what its pattern finds in it.
pub fn category_takes(category: &CustomCategoryDto, name: &str, found: Option<bool>) -> (r: bool)
    ensures
        r == takes_name(*category, name@, found),
{
    if same(category.match_mode.as_str(), "regex") {
        return !category.regex_pattern.as_str().is_empty() && match found {
            Some(hit) => hit,
            None => false,
        };
    }
    match text_after_last(name, '.') {
        None => false,
        Some(extension) => {
            if extension.as_str().is_empty() {
                return false;
            }
            let mut i: usize = 0;
            while i < category.extensions.len()
                invariant
                    i <= category.extensions@.len(),
                    extension@.len() > 0,
                    category.match_mode@ != "regex"@,
                    after_last(name@, '.') == Some(extension@),
                    forall|k: int|
                        0 <= k < i ==> !same_folded(
                            without_leading((#[trigger] category.extensions@[k])@, '.'),
                            extension@,
                        ),
                decreases category.extensions@.len() - i,
            {
                let candidate = strip_leading(category.extensions[i].as_str(), '.');
                if same_ignoring_case(candidate.as_str(), extension.as_str()) {
                    assert(extension_listed(category.extensions@, extension@));
                    return true;
                }
                i += 1;
            }
            false
        },
    }
}

/// Whether a category takes a name.
pub open spec fn hits(category: CustomCategoryDto, name: Seq<char>) -> bool {
    takes_name(category, name, regex_finds(category.regex_pattern@, name, true))
}

/// Whether a category takes a name.
pub fn matches(category: &CustomCategoryDto, name: &str) -> (r: bool)
    ensures
        r == hits(*category, name@),
{
    let found = if same(category.match_mode.as_str(), "regex") {
        regex_search(category.regex_pattern.as_str(), name, true)
    } else {
        None
    };
    category_takes(category, name, found)
}

pub open spec fn builtin_is(category: CustomCategoryDto, what: Seq<char>) -> bool {
    opt_text(category.builtin_type) == Some(what)
}

/// Whether a visible category is an ordinary one: neither that of all files nor that of the
/// rest.
pub open spec fn ordinary(category: CustomCategoryDto) -> bool {
    category.visible && !builtin_is(category, "all"@) && !builtin_is(category, "other"@)
}

/// Whether a category comes before another: by position, and by place where the positions are
/// equal.
pub open spec fn comes_first(categories: Seq<CustomCategoryDto>, i: int, j: int) -> bool {
    categories[i].position < categories[j].position || (categories[i].position
        == categories[j].position && i <= j)
}

/// Whether a category is ordinary, takes the name and has a folder.
pub open spec fn decides(category: CustomCategoryDto, name: Seq<char>) -> bool {
    ordinary(category) && category.save_dir@.len() > 0 && hits(category, name)
}

/// Whether a category is the visible one for the rest.
pub open spec fn for_the_rest(category: CustomCategoryDto) -> bool {
    category.visible && builtin_is(category, "other"@)
}

/// Whether the category at index `i` is the first that decides.
pub open spec fn first_deciding(categories: Seq<CustomCategoryDto>, name: Seq<char>, i: int) -> bool {
    &&& 0 <= i < categories.len()
    &&& decides(categories[i], name)
    &&& forall|j: int|
        0 <= j < categories.len() && decides(#[trigger] categories[j], name) ==> comes_first(
            categories,
            i,
            j,
        )
}

/// Whether the category at index `i` is the first for the rest.
pub open spec fn first_for_the_rest(categories: Seq<CustomCategoryDto>, i: int) -> bool {
    &&& 0 <= i < categories.len()
    &&& for_the_rest(categories[i])
    &&& forall|j: int|
        0 <= j < categories.len() && for_the_rest(#[trigger] categories[j]) ==> comes_first(
            categories,
            i,
            j,
        )
}

pub open spec fn some_ordinary_hits(categories: Seq<CustomCategoryDto>, name: Seq<char>) -> bool {
    exists|i: int|
        0 <= i < categories.len() && ordinary(#[trigger] categories[i]) && hits(
            categories[i],
            name,
        )
}

/// Whether `dir` is the folder for a name.
pub open spec fn dir_is(
    categories: Seq<CustomCategoryDto>,
    name: Seq<char>,
    dir: Option<Seq<char>>,
) -> bool {
    if name.len() == 0 {
        dir is None
    } else if exists|i: int| 0 <= i < categories.len() && decides(#[trigger] categories[i], name) {
        exists|i: int| #[trigger]
            first_deciding(categories, name, i) && dir == Some(categories[i].save_dir@)
    } else if exists|i: int| 0 <= i < categories.len() && for_the_rest(#[trigger] categories[i]) {
        exists|i: int| #[trigger]
            first_for_the_rest(categories, i) && dir == if categories[i].save_dir@.len() > 0
                && !some_ordinary_hits(categories, name) {
                Some(categories[i].save_dir@)
            } else {
                None
            }
    } else {
        dir is None
    }
}

/// The folder for a file name.
pub fn dir_for_name(categories: &Vec<CustomCategoryDto>, name: &str) -> (r: Option<String>)
    ensures
        dir_is(categories@, name@, opt_text(r)),
{
    if name.is_empty() {
        return None;
    }
    let ghost all = categories@;
    let mut decided: Option<usize> = None;
    let mut rest: Option<usize> = None;
    let mut hit: bool = false;
    let mut i: usize = 0;
    while i < categories.len()
        invariant
            i <= all.len(),
            all == categories@,
            hit == (exists|k: int|
                0 <= k < i && ordinary(#[trigger] all[k]) && hits(all[k], name@)),
            match decided {
                Some(d) => d < i && decides(all[d as int], name@) && forall|j: int|
                    0 <= j < i && decides(#[trigger] all[j], name@) ==> comes_first(
                        all,
                        d as int,
                        j,
                    ),
                None => forall|j: int| 0 <= j < i ==> !decides(#[trigger] all[j], name@),
            },
            match rest {
                Some(d) => d < i && for_the_rest(all[d as int]) && forall|j: int|
                    0 <= j < i && for_the_rest(#[trigger] all[j]) ==> comes_first(
                        all,
                        d as int,
                        j,
                    ),
                None => forall|j: int| 0 <= j < i ==> !for_the_rest(#[trigger] all[j]),
            },
        decreases all.len() - i,
    {
        let category = &categories[i];
        let (is_all, is_other) = match &category.builtin_type {
            Some(what) => (same(what.as_str(), "all"), same(what.as_str(), "other")),
            None => (false, false),
        };
        if category.visible && !is_all && !is_other {
            assert(ordinary(all[i as int]));
            if matches(category, name) {
                hit = true;
                if !category.save_dir.as_str().is_empty() {
                    assert(decides(all[i as int], name@));
                    let sooner: bool = match decided {
                        Some(d) => category.position < categories[d].position,
                        None => true,
                    };
                    if sooner {
                        decided = Some(i);
                    }
                }
            }
        } else {
            assert(!ordinary(all[i as int]));
        }
        if category.visible && is_other {
            assert(for_the_rest(all[i as int]));
            let sooner: bool = match rest {
                Some(d) => category.position < categories[d].position,
                None => true,
            };
            if sooner {
                rest = Some(i);
            }
        } else {
            assert(!for_the_rest(all[i as int]));
        }
        i += 1;
    }
    match decided {
        Some(d) => {
            assert(first_deciding(all, name@, d as int));
            Some(categories[d].save_dir.clone())
        },
        None => match rest {
            None => None,
            Some(d) => {
                assert(first_for_the_rest(all, d as int));
                if hit || categories[d].save_dir.as_str().is_empty() {
                    None
                } else {
                    Some(categories[d].save_dir.clone())
                }
            },
        },
    }
}

/// The name by which a download is put into a category: its file name, or the one that its
/// address ends with where the file name has no dot and the address gives one.
pub open spec fn name_for(file_name: Seq<char>, from_url: Option<Seq<char>>) -> Seq<char> {
    if file_name.contains('.') {
        file_name
    } else {
        match from_url {
            Some(name) => name,
            None => file_name,
        }
    }
}

/// The folder for a captured download, where its category has one.
pub fn category_save_dir(
    categories: &Vec<CustomCategoryDto>,
    file_name: &str,
    url: &str,
) -> (r: Option<String>)
    ensures
        dir_is(
            categories@,
            name_for(file_name@, dotted_name(decoded_segment(url@))),
            opt_text(r),
        ),
{
    if contains_char(file_name, '.') {
        return dir_for_name(categories, file_name);
    }
    match file_name_from_url(url) {
        Some(name) => dir_for_name(categories, name.as_str()),
        None => dir_for_name(categories, file_name),
    }
}

/// The folder of the category for the rest is given only to names that no ordinary category
/// takes.
pub proof fn law_rest_takes_only_what_no_other_does(
    categories: Seq<CustomCategoryDto>,
    name: Seq<char>,
    dir: Option<Seq<char>>,
)
    requires
        dir_is(categories, name, dir),
        some_ordinary_hits(categories, name),
        forall|i: int| 0 <= i < categories.len() ==> !decides(#[trigger] categories[i], name),
    ensures
        dir is None,
{
}

/// Hidden categories change nothing: a folder is always that of a visible one.
pub proof fn law_folder_is_of_a_visible_category(
    categories: Seq<CustomCategoryDto>,
    name: Seq<char>,
    dir: Option<Seq<char>>,
)
    requires
        dir_is(categories, name, dir),
        dir is Some,
    ensures
        exists|i: int|
            0 <= i < categories.len() && (#[trigger] categories[i]).visible
                && categories[i].save_dir@ == dir->0 && categories[i].save_dir@.len() > 0,
{
    if exists|i: int| 0 <= i < categories.len() && decides(#[trigger] categories[i], name) {
        let i = choose|i: int| #[trigger]
            first_deciding(categories, name, i) && dir == Some(categories[i].save_dir@);
        assert(categories[i].visible);
    } else {
        let i = choose|i: int| #[trigger]
            first_for_the_rest(categories, i) && dir == if categories[i].save_dir@.len() > 0
                && !some_ordinary_hits(categories, name) {
                Some(categories[i].save_dir@)
            } else {
                None
            };
        assert(categories[i].visible);
    }
}

/// A category that goes by extensions takes every name that ends in a dot and one of its
/// extensions, wherever that extension stands in its list and whatever stands before the dot.
pub proof fn law_category_takes_each_of_its_extensions(
    category: &CustomCategoryDto,
    stem: Seq<char>,
    name: &str,
    i: int,
    found: Option<bool>,
    taken: bool,
)
    requires
        call_ensures(category_takes, (category, name, found), taken),
        category.match_mode@ != "regex"@,
        0 <= i < category.extensions@.len(),
        category.extensions@[i]@.len() > 0,
        !category.extensions@[i]@.contains('.'),
        name@ == stem + seq!['.'] + category.extensions@[i]@,
    ensures
        taken,
{
    let e = category.extensions@[i]@;
    law_after_the_last(stem, '.', e);
    assert(e.contains(e[0]));
    assert(without_leading(e, '.') == e);
    assert(same_folded(without_leading(category.extensions@[i]@, '.'), e));
}

/// In what case an extension is written, and with how many dots before it in the list, makes no
/// difference.
pub proof fn law_category_ignores_case_and_leading_dots(
    category: &CustomCategoryDto,
    stem: Seq<char>,
    dots: Seq<char>,
    e: Seq<char>,
    end: Seq<char>,
    name: &str,
    i: int,
    found: Option<bool>,
    taken: bool,
)
    requires
        call_ensures(category_takes, (category, name, found), taken),
        category.match_mode@ != "regex"@,
        0 <= i < category.extensions@.len(),
        forall|k: int| 0 <= k < dots.len() ==> #[trigger] dots[k] == '.',
        e.len() > 0,
        e[0] != '.',
        category.extensions@[i]@ == dots + e,
        same_folded(e, end),
        !end.contains('.'),
        name@ == stem + seq!['.'] + end,
    ensures
        taken,
{
    law_after_the_last(stem, '.', end);
    law_leading_character_is_taken_off(dots, '.', e);
    assert(folded(e).len() == folded(end).len());
    assert(same_folded(without_leading(category.extensions@[i]@, '.'), end));
}

/// A category that goes by extensions takes no name without a dot, none that ends in one, and none
/// whose end it does not list.
pub proof fn law_category_takes_nothing_else(
    category: &CustomCategoryDto,
    stem: Seq<char>,
    end: Seq<char>,
    name: &str,
    found: Option<bool>,
    taken: bool,
)
    requires
        call_ensures(category_takes, (category, name, found), taken),
        category.match_mode@ != "regex"@,
        !end.contains('.'),
        forall|i: int|
            0 <= i < category.extensions@.len() ==> !same_folded(
                without_leading((#[trigger] category.extensions@[i])@, '.'),
                end,
            ),
        name@ == end || name@ == stem + seq!['.'] + end,
    ensures
        !taken,
{
    law_after_the_last(stem, '.', end);
}

/// A name without a dot, and one that ends in a dot, are of no extension.
pub proof fn law_no_extension_is_not_taken(
    category: &CustomCategoryDto,
    stem: Seq<char>,
    name: &str,
    found: Option<bool>,
    taken: bool,
)
    requires
        call_ensures(category_takes, (category, name, found), taken),
        category.match_mode@ != "regex"@,
        !name@.contains('.') || name@ == stem + seq!['.'],
    ensures
        !taken,
{
    let none = Seq::<char>::empty();
    law_after_the_last(stem, '.', none);
    assert(stem + seq!['.'] + none =~= stem + seq!['.']);
    if !name@.contains('.') {
        law_after_the_last(stem, '.', name@);
    }
}

/// What a category takes does not depend on the order of its extensions, nor on how often it
/// lists one: two categories that list the same ones take the same names.
pub proof fn law_order_of_extensions_is_no_matter(
    a: &CustomCategoryDto,
    b: &CustomCategoryDto,
    name: &str,
    found: Option<bool>,
    by_a: bool,
    by_b: bool,
)
    requires
        call_ensures(category_takes, (a, name, found), by_a),
        call_ensures(category_takes, (b, name, found), by_b),
        a.match_mode@ != "regex"@,
        b.match_mode@ != "regex"@,
        forall|e: Seq<char>| #[trigger]
            texts(a.extensions@).contains(e) <==> texts(b.extensions@).contains(e),
    ensures
        by_a == by_b,
{
    assert forall|x: &CustomCategoryDto, y: &CustomCategoryDto, extension: Seq<char>|
        (forall|e: Seq<char>| #[trigger]
            texts(x.extensions@).contains(e) ==> texts(y.extensions@).contains(e))
            && #[trigger] extension_listed(x.extensions@, extension) implies #[trigger] extension_listed(
        y.extensions@,
        extension,
    ) by {
        let i = choose|i: int|
            0 <= i < x.extensions@.len() && same_folded(
                without_leading((#[trigger] x.extensions@[i])@, '.'),
                extension,
            );
        let e = x.extensions@[i]@;
        assert(texts(x.extensions@)[i] == e);
        assert(texts(x.extensions@).contains(e));
        let j = choose|j: int| 0 <= j < texts(y.extensions@).len() && texts(y.extensions@)[j] == e;
        assert(y.extensions@[j]@ == e);
    }
}

/// A category that goes by a pattern takes what the pattern finds, and nothing where it has no
/// pattern or a broken one; its extensions are then no matter.
pub proof fn law_pattern_decides_alone(
    category: &CustomCategoryDto,
    name: &str,
    found: Option<bool>,
    taken: bool,
)
    requires
        call_ensures(category_takes, (category, name, found), taken),
        category.match_mode@ == "regex"@,
        category.regex_pattern@.len() > 0,
    ensures
        found == Some(true) ==> taken,
        found == Some(false) ==> !taken,
        found is None ==> !taken,
{
}

/// Of the ordinary categories that have a folder and take the name, the one with the least
/// position gives the folder; of two with one position, the one that stands first.
pub proof fn law_least_position_gives_the_folder(
    categories: Seq<CustomCategoryDto>,
    name: Seq<char>,
    i: int,
    dir: Option<Seq<char>>,
)
    requires
        dir_is(categories, name, dir),
        name.len() > 0,
        0 <= i < categories.len(),
        categories[i].visible,
        opt_text(categories[i].builtin_type) != Some("all"@),
        opt_text(categories[i].builtin_type) != Some("other"@),
        categories[i].save_dir@.len() > 0,
        hits(categories[i], name),
        forall|j: int|
            0 <= j < categories.len() && j != i && hits(#[trigger] categories[j], name)
                && categories[j].visible && opt_text(categories[j].builtin_type) != Some("all"@)
                && opt_text(categories[j].builtin_type) != Some("other"@)
                && categories[j].save_dir@.len() > 0 ==> categories[i].position
                < categories[j].position || (categories[i].position == categories[j].position && i
                < j),
    ensures
        dir == Some(categories[i].save_dir@),
{
    assert(decides(categories[i], name));
    let k = choose|k: int| #[trigger]
        first_deciding(categories, name, k) && dir == Some(categories[k].save_dir@);
    assert(decides(categories[k], name));
    assert(comes_first(categories, k, i));
}

/// A name that no ordinary category takes goes to the folder of the category for the rest, where
/// one is shown and has a folder.
pub proof fn law_the_rest_goes_to_its_folder(
    categories: Seq<CustomCategoryDto>,
    name: Seq<char>,
    i: int,
    dir: Option<Seq<char>>,
)
    requires
        dir_is(categories, name, dir),
        name.len() > 0,
        0 <= i < categories.len(),
        categories[i].visible,
        opt_text(categories[i].builtin_type) == Some("other"@),
        categories[i].save_dir@.len() > 0,
        forall|j: int|
            0 <= j < categories.len() && (#[trigger] categories[j]).visible && j != i ==> opt_text(
                categories[j].builtin_type,
            ) != Some("other"@) && (opt_text(categories[j].builtin_type) == Some("all"@) || !hits(
                categories[j],
                name,
            )),
    ensures
        dir == Some(categories[i].save_dir@),
{
    assert(for_the_rest(categories[i]));
    assert forall|j: int| 0 <= j < categories.len() implies !(ordinary(#[trigger] categories[j])
        && hits(categories[j], name)) by {
        if j == i {
            assert(builtin_is(categories[i], "other"@));
        }
    }
    let k = choose|k: int| #[trigger]
        first_for_the_rest(categories, k) && dir == if categories[k].save_dir@.len() > 0
            && !some_ordinary_hits(categories, name) {
            Some(categories[k].save_dir@)
        } else {
            None
        };
    assert(for_the_rest(categories[k]));
    assert(k == i);
}

/// Without a category that is shown there is no folder.
pub proof fn law_hidden_categories_give_no_folder(
    categories: Seq<CustomCategoryDto>,
    name: Seq<char>,
    dir: Option<Seq<char>>,
)
    requires
        dir_is(categories, name, dir),
        forall|j: int| 0 <= j < categories.len() ==> !(#[trigger] categories[j]).visible,
    ensures
        dir is None,
{
}

/// Categories and name fix the folder.
pub proof fn law_folder_is_determined(
    categories: Seq<CustomCategoryDto>,
    name: Seq<char>,
    a: Option<Seq<char>>,
    b: Option<Seq<char>>,
)
    requires
        dir_is(categories, name, a),
        dir_is(categories, name, b),
    ensures
        a == b,
{
    if name.len() == 0 {
    } else if exists|i: int| 0 <= i < categories.len() && decides(#[trigger] categories[i], name) {
        let i = choose|i: int| #[trigger]
            first_deciding(categories, name, i) && a == Some(categories[i].save_dir@);
        let j = choose|j: int| #[trigger]
            first_deciding(categories, name, j) && b == Some(categories[j].save_dir@);
        assert(decides(categories[i], name) && decides(categories[j], name));
        assert(comes_first(categories, i, j) && comes_first(categories, j, i));
        assert(i == j);
    } else if exists|i: int| 0 <= i < categories.len() && for_the_rest(#[trigger] categories[i]) {
        let i = choose|i: int| #[trigger]
            first_for_the_rest(categories, i) && a == if categories[i].save_dir@.len() > 0
                && !some_ordinary_hits(categories, name) {
                Some(categories[i].save_dir@)
            } else {
                None
            };
        let j = choose|j: int| #[trigger]
            first_for_the_rest(categories, j) && b == if categories[j].save_dir@.len() > 0
                && !some_ordinary_hits(categories, name) {
                Some(categories[j].save_dir@)
            } else {
                None
            };
        assert(for_the_rest(categories[i]) && for_the_rest(categories[j]));
        assert(comes_first(categories, i, j) && comes_first(categories, j, i));
        assert(i == j);
    }
}

/// A name with a dot decides by itself, whatever the link; without one the link's file name decides,
/// where the link has one with a dot.
pub proof fn law_name_decides_before_the_link(
    categories: &Vec<CustomCategoryDto>,
    file_name: &str,
    url: &str,
    other: &str,
    dir: Option<String>,
    by_name: Option<String>,
    from_url: Option<String>,
    by_url: Option<String>,
)
    requires
        call_ensures(category_save_dir, (categories, file_name, url), dir),
        call_ensures(dir_for_name, (categories, file_name), by_name),
        call_ensures(file_name_from_url, (url,), from_url),
        from_url is Some ==> other@ == (from_url->0)@,
        call_ensures(dir_for_name, (categories, other), by_url),
    ensures
        file_name@.contains('.') ==> opt_text(dir) == opt_text(by_name),
        !file_name@.contains('.') && from_url is Some ==> opt_text(dir) == opt_text(by_url),
        !file_name@.contains('.') && from_url is None ==> opt_text(dir) == opt_text(by_name),
        from_url is Some ==> (from_url->0)@.contains('.'),
{
    if file_name@.contains('.') || from_url is None {
        law_folder_is_determined(categories@, file_name@, opt_text(dir), opt_text(by_name));
    } else {
        law_folder_is_determined(categories@, other@, opt_text(dir), opt_text(by_url));
    }
}

/// A single category that is shown, has a folder and goes by extensions gives its folder to every
/// name with one of them.
pub proof fn law_category_gives_its_folder(
    categories: &Vec<CustomCategoryDto>,
    category: CustomCategoryDto,
    stem: Seq<char>,
    i: int,
    name: &str,
    dir: Option<String>,
)
    requires
        categories@ == seq![category],
        category.visible,
        category.builtin_type is None,
        category.save_dir@.len() > 0,
        category.match_mode@ != "regex"@,
        0 <= i < category.extensions@.len(),
        category.extensions@[i]@.len() > 0,
        !category.extensions@[i]@.contains('.'),
        name@ == stem + seq!['.'] + category.extensions@[i]@,
        call_ensures(dir_for_name, (categories, name), dir),
    ensures
        opt_text(dir) == Some(category.save_dir@),
{
    let e = category.extensions@[i]@;
    law_after_the_last(stem, '.', e);
    assert(e.contains(e[0]));
    assert(without_leading(e, '.') == e);
    assert(same_folded(without_leading(category.extensions@[i]@, '.'), e));
    assert(categories@[0] == category);
    assert(hits(categories@[0], name@));
    law_least_position_gives_the_folder(categories@, name@, 0, opt_text(dir));
}

} // verus!
