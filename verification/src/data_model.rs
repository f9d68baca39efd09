//! Posts as the blog's database holds them, and the text rules that turn
//! one into a Markdown document with TOML front matter.

use crate::text::{
    decimal, decimal_digits, first_groups, number_or_zero, optional_texts, parse_number,
    regex_first_groups, regex_replaced_all, regex_replaced_first, replace_all, replace_first,
    replaced_or_same, take_replaced,
};
use vstd::prelude::*;
use vstd::string::*;

verus! {

/// A link target that starts with the upload directory, a year of four
/// digits and a month of two.
pub const INTERNAL_LINK_PATTERN: &'static str = "\\]\\(/content/images/(\\d{4}/\\d{2}/[^)]+)\\)";

/// What an internal link target becomes; `$1` is the year, the month and
/// the file.
pub const INTERNAL_LINK_REPLACEMENT: &'static str = "](/blog/$1)";

/// A line that gives `date` or `updated` as a quoted text.
pub const DATE_QUOTE_PATTERN: &'static str = "^(date|updated) = \"([- \\w\\d:\\.]+)\"$";

/// The same line without the quotation marks.
pub const DATE_QUOTE_REPLACEMENT: &'static str = "$1 = $2";

/// A footnote that already has its number.
pub const NUMBERED_FOOTNOTE_PATTERN: &'static str = "\\[\\^(\\d+)\\]";

/// A placeholder at the start of a line, where a footnote is defined.
pub const FOOTNOTE_DEFINITION_PATTERN: &'static str = "^\\[\\^n\\]:";

/// A placeholder that no `:` follows, with what follows it as the first
/// group.
pub const FOOTNOTE_REFERENCE_PATTERN: &'static str = "\\[\\^n\\]([^:]|$)";

/// What follows a placeholder is kept behind its number.
pub const FOOTNOTE_REFERENCE_TAIL: &'static str = "$1";

/// The text with every internal link target rewritten.
pub open spec fn links_rewritten(text: Seq<char>) -> Seq<char> {
    replaced_or_same(
        regex_replaced_all(INTERNAL_LINK_PATTERN@, true, false, text, INTERNAL_LINK_REPLACEMENT@),
        text,
    )
}

/// The text with the quotation marks taken off every `date` and `updated`
/// line.
pub open spec fn quotes_stripped(text: Seq<char>) -> Seq<char> {
    replaced_or_same(
        regex_replaced_all(DATE_QUOTE_PATTERN@, false, true, text, DATE_QUOTE_REPLACEMENT@),
        text,
    )
}

/// Replaces internal links into the upload directory by links below
/// `/blog`, keeping year, month and file name. Links to other sites and
/// the rest of the text stay as they are.
pub fn relative_internal_links(text: &str) -> (r: String)
    ensures
        r@ == links_rewritten(text@),
{
    let replaced =
        replace_all(INTERNAL_LINK_PATTERN, true, false, text, INTERNAL_LINK_REPLACEMENT);
    take_replaced(replaced, text)
}

/// Strips the quotation marks from the TOML fields named `date` and
/// `updated`, which makes them datetime literals.
pub fn strip_datetime_quotes(text: &str) -> (r: String)
    ensures
        r@ == quotes_stripped(text@),
{
    let replaced = replace_all(DATE_QUOTE_PATTERN, false, true, text, DATE_QUOTE_REPLACEMENT);
    take_replaced(replaced, text)
}

/// The number that a captured group spells; zero where there is none.
pub open spec fn group_number(group: Option<Seq<char>>) -> nat {
    match group {
        Some(digits) => number_or_zero(digits),
        None => 0,
    }
}

/// The highest number among the groups; zero where there is no group.
pub open spec fn highest_number(groups: Seq<Option<Seq<char>>>) -> nat
    decreases groups.len(),
{
    if groups.len() == 0 {
        0
    } else {
        let before = highest_number(groups.drop_last());
        let last = group_number(groups.last());
        if last > before {
            last
        } else {
            before
        }
    }
}

/// The highest number that a footnote of the text already has.
pub open spec fn highest_existing(text: Seq<char>) -> nat {
    match regex_first_groups(NUMBERED_FOOTNOTE_PATTERN@, false, false, text) {
        Some(groups) => highest_number(groups),
        None => 0,
    }
}

/// The marker of the footnote with this number: `[^7]` where it is
/// referred to, `[^7]:` where it is defined.
pub open spec fn marker_of(number: nat, definition: bool) -> Seq<char> {
    if definition {
        "[^"@ + decimal_digits(number) + "]:"@
    } else {
        "[^"@ + decimal_digits(number) + "]"@
    }
}

/// The text with its first placeholder replaced by `marker`: the first
/// that starts a line and has a `:` behind it, where a definition is
/// looked for, and else the first that has no `:` behind it.
pub open spec fn first_placeholder_replaced(
    text: Seq<char>,
    marker: Seq<char>,
    definition: bool,
) -> Seq<char> {
    let replaced = if definition {
        regex_replaced_first(FOOTNOTE_DEFINITION_PATTERN@, false, true, text, marker)
    } else {
        regex_replaced_first(
            FOOTNOTE_REFERENCE_PATTERN@,
            false,
            false,
            text,
            marker + FOOTNOTE_REFERENCE_TAIL@,
        )
    };
    replaced_or_same(replaced, text)
}

/// The text with its placeholders numbered in the order in which they
/// stand, the first of them with the number after `last`. Numbering ends
/// with the first replacement that changes nothing, and at the greatest
/// number of 64 bits.
pub open spec fn numbered_from(text: Seq<char>, last: nat, definition: bool) -> Seq<char>
    decreases u64::MAX - last,
{
    if last >= u64::MAX {
        text
    } else {
        let next = first_placeholder_replaced(text, marker_of(last + 1, definition), definition);
        if next == text {
            text
        } else {
            numbered_from(next, last + 1, definition)
        }
    }
}

/// The text with all its placeholder footnotes numbered: first those that
/// define a footnote, at the start of a line and with a `:` behind them,
/// then those that refer to one, with no `:` behind them, both counting on
/// from the highest number that the text had before.
pub open spec fn footnotes_reified(text: Seq<char>) -> Seq<char> {
    let highest = highest_existing(text);
    numbered_from(numbered_from(text, highest, true), highest, false)
}

/// The highest number among captured groups of digits. A group that is
/// missing or does not spell a number of 32 bits counts as zero.
pub fn highest_footnote(groups: &Vec<Option<String>>) -> (r: u32)
    ensures
        r == highest_number(optional_texts(groups@)),
{
    let ghost all = optional_texts(groups@);
    let mut highest: u32 = 0;
    let mut i: usize = 0;
    assert(all.subrange(0, 0) =~= Seq::<Option<Seq<char>>>::empty());
    while i < groups.len()
        invariant
            i <= groups.len(),
            all == optional_texts(groups@),
            highest == highest_number(all.subrange(0, i as int)),
        decreases groups.len() - i,
    {
        let number = match &groups[i] {
            Some(digits) => parse_number(digits.as_str()),
            None => 0,
        };
        proof {
            let longer = all.subrange(0, i as int + 1);
            assert(longer.drop_last() =~= all.subrange(0, i as int));
            assert(longer.last() == all[i as int]);
        }
        if number > highest {
            highest = number;
        }
        i += 1;
    }
    assert(all.subrange(0, i as int) =~= all);
    highest
}

/// Writes the marker of a numbered footnote.
pub fn footnote_marker(number: u64, definition: bool) -> (r: String)
    ensures
        r@ == marker_of(number as nat, definition),
{
    let mut marker = "[^".to_owned();
    let digits = decimal(number);
    marker.append(digits.as_str());
    if definition {
        marker.append("]:");
    } else {
        marker.append("]");
    }
    marker
}

/// Numbers the placeholders of one kind, counting on from `last`.
pub fn number_placeholders(text: String, last: u64, definition: bool) -> (r: String)
    ensures
        r@ == numbered_from(text@, last as nat, definition),
{
    let mut current = text;
    let mut idx: u64 = last;
    while idx < u64::MAX
        invariant
            numbered_from(current@, idx as nat, definition) == numbered_from(
                text@,
                last as nat,
                definition,
            ),
        decreases u64::MAX - idx,
    {
        let marker = footnote_marker(idx + 1, definition);
        let replaced = if definition {
            replace_first(
                FOOTNOTE_DEFINITION_PATTERN,
                false,
                true,
                current.as_str(),
                marker.as_str(),
            )
        } else {
            let mut replacement = marker.clone();
            replacement.append(FOOTNOTE_REFERENCE_TAIL);
            replace_first(
                FOOTNOTE_REFERENCE_PATTERN,
                false,
                false,
                current.as_str(),
                replacement.as_str(),
            )
        };
        let next = take_replaced(replaced, current.as_str());
        assert(next@ == first_placeholder_replaced(
            current@,
            marker_of(idx as nat + 1, definition),
            definition,
        ));
        if next == current {
            assert(numbered_from(current@, idx as nat, definition) == current@);
            return current;
        }
        assert(numbered_from(current@, idx as nat, definition) == numbered_from(
            next@,
            idx as nat + 1,
            definition,
        ));
        current = next;
        idx += 1;
    }
    current
}

/// Replaces all placeholder footnotes by numbered ones.
///
/// Both where a footnote is referred to and where it is defined, Ghost
/// lets the author write the same placeholder, `[^n]`, while Zola wants a
/// number in each. Each placeholder gets a number of its own, in the
/// order in which they stand and above every number that the text
/// already uses.
pub fn reify_footnotes(s: &str) -> (r: String)
    ensures
        r@ == footnotes_reified(s@),
{
    let highest: u32 = match first_groups(NUMBERED_FOOTNOTE_PATTERN, false, false, s) {
        Some(groups) => highest_footnote(&groups),
        None => 0,
    };
    let text = number_placeholders(s.to_owned(), highest as u64, true);
    number_placeholders(text, highest as u64, false)
}

/// Whether a post is out, or still being written.
#[derive(Debug, PartialEq, Eq, Clone, Copy, Hash, Structural)]
pub enum Status {
    Published,
    Draft,
}

/// The status that the database's text stands for: anything but
/// `published` is a draft.
pub open spec fn status_of(text: Seq<char>) -> Status {
    if text == "published"@ {
        Status::Published
    } else {
        Status::Draft
    }
}

impl Status {
    /// Reads a status. This never fails: a text that is not known makes a
    /// draft.
    pub fn from_str(s: &str) -> (r: Result<Status, ()>)
        ensures
            r == Ok::<Status, ()>(status_of(s@)),
    {
        if s.to_owned() == "published".to_owned() {
            Ok(Status::Published)
        } else {
            Ok(Status::Draft)
        }
    }

    pub fn draft(&self) -> (r: bool)
        ensures
            r == (*self == Status::Draft),
    {
        *self == Status::Draft
    }

    pub fn published(&self) -> (r: bool)
        ensures
            r == (*self == Status::Published),
    {
        !self.draft()
    }
}

/// The views of a list of texts.
pub open spec fn texts_view(texts: Seq<String>) -> Seq<Seq<char>> {
    Seq::new(texts.len(), |i: int| texts[i]@)
}

/// A copy of a list of texts.
pub fn clone_texts(texts: &Vec<String>) -> (r: Vec<String>)
    ensures
        texts_view(r@) == texts_view(texts@),
{
    let mut out: Vec<String> = Vec::new();
    let mut i: usize = 0;
    while i < texts.len()
        invariant
            i <= texts.len(),
            out@.len() == i,
            forall|j: int| 0 <= j < i ==> out@[j]@ == texts@[j]@,
        decreases texts.len() - i,
    {
        out.push(texts[i].clone());
        i += 1;
    }
    assert(texts_view(out@) =~= texts_view(texts@));
    out
}

/// What the front matter tells beyond Zola's own fields.
#[derive(Debug)]
pub struct Extra {
    pub id: i64,
    pub language: String,
    pub author_name: String,
}

/// The tags of a post, in the order in which the database gave them.
#[derive(Debug)]
pub struct Taxonomies {
    tags: Vec<String>,
}

impl Default for Extra {
    fn default() -> (r: Extra)
        ensures
            r.id == 0,
            r.language@.len() == 0,
            r.author_name@.len() == 0,
    {
        Extra { id: 0, language: String::new(), author_name: String::new() }
    }
}

impl Default for Taxonomies {
    fn default() -> (r: Taxonomies)
        ensures
            r@.len() == 0,
    {
        Taxonomies { tags: Vec::new() }
    }
}

impl std::str::FromStr for Status {
    type Err = ();

    /// Reads a status as the method of the same name on `Status` does:
    /// `published` is a published post, any other text a draft.
    fn from_str(s: &str) -> (r: Result<Status, ()>)
        ensures
            r == Ok::<Status, ()>(status_of(s@)),
    {
        Status::from_str(s)
    }
}

impl View for Taxonomies {
    type V = Seq<Seq<char>>;

    closed spec fn view(&self) -> Seq<Seq<char>> {
        texts_view(self.tags@)
    }
}

impl Taxonomies {
    pub fn new(tags: Vec<String>) -> (r: Taxonomies)
        ensures
            r@ == texts_view(tags@),
    {
        Taxonomies { tags }
    }

    pub fn tags(&self) -> (r: &Vec<String>)
        ensures
            texts_view(r@) == self@,
    {
        &self.tags
    }
}

/// A moment in UTC, by its calendar fields.
#[derive(Debug, PartialEq, Eq, Clone, Copy, Structural)]
pub struct Timestamp {
    pub year: i32,
    pub month: u32,
    pub day: u32,
    pub hour: u32,
    pub minute: u32,
    pub second: u32,
    pub nanosecond: u32,
}

/// A post of the blog.
#[derive(Debug)]
pub struct Post {
    pub title: String,
    /// Empty where the database gave none; see `Post::slug`.
    pub slug: String,
    pub description: String,
    pub date: Option<Timestamp>,
    pub updated: Option<Timestamp>,
    pub status: Status,
    pub extra: Extra,
    pub taxonomies: Taxonomies,
    pub content: String,
}

/// One row of the posts joined with their authors, and the names of the
/// post's tags.
#[derive(Debug)]
pub struct PostRow {
    pub id: i64,
    pub title: String,
    pub markdown: Option<String>,
    pub meta_description: Option<String>,
    pub published_at: Option<Timestamp>,
    pub updated_at: Option<Timestamp>,
    pub status: String,
    pub slug: String,
    pub language: String,
    pub author_name: String,
    pub tags: Vec<String>,
}

/// The keys of a post's front matter. A key that is `None` is left out.
#[derive(Debug)]
pub struct FrontMatter {
    pub title: String,
    pub slug: Option<String>,
    pub description: Option<String>,
    pub date: Option<Timestamp>,
    pub updated: Option<Timestamp>,
    pub draft: Option<bool>,
    pub extra: Extra,
    pub taxonomies: Taxonomies,
}

/// The longest slug that is derived from a title.
pub const MAX_SLUG_LENGTH: usize = 150;

/// What `slugify::slugify` makes of a title with no stop words, `-` as
/// the separator and the given greatest length.
pub uninterp spec fn slugified(title: Seq<char>, max_length: int) -> Seq<char>;

/// Calls `slugify::slugify` as its macro does when only a greatest length
/// is given: no stop words, `-` between the words. The result is made of
/// `a` to `z`, `0` to `9` and `-`, and is cut to at most `max_length` of
/// them.
#[verifier::external_body]
fn slugify_title(title: &str, max_length: usize) -> (r: String)
    ensures
        r@ == slugified(title@, max_length as int),
        r@.len() <= max_length,
{
    slugify::slugify(title, "", "-", Some(max_length))
}

/// Calls `uuid::Uuid::new_v4` and writes the identifier in its usual form
/// of 32 hexadecimal digits in five groups, which takes 36 characters.
/// Which identifier comes is left to chance.
#[verifier::external_body]
fn random_identifier() -> (r: String)
    ensures
        r@.len() == 36,
{
    uuid::Uuid::new_v4().to_string()
}

/// A row of `count` zeros.
pub open spec fn zeros(count: int) -> Seq<char> {
    Seq::new(
        if count > 0 {
            count as nat
        } else {
            0
        },
        |i: int| '0',
    )
}

/// The number in decimal digits, with zeros in front up to `width`.
pub open spec fn zero_padded(n: nat, width: int) -> Seq<char> {
    zeros(width - decimal_digits(n).len()) + decimal_digits(n)
}

/// The year as the directory of a post is named: four digits for the
/// years 0 to 9999, and a sign in front of at least four digits for any
/// other.
pub open spec fn year_text(year: int) -> Seq<char> {
    if 0 <= year <= 9999 {
        zero_padded(year as nat, 4)
    } else if year < 0 {
        "-"@ + zero_padded((-year) as nat, 4)
    } else {
        "+"@ + zero_padded(year as nat, 4)
    }
}

/// The file name of a post with this slug.
pub open spec fn file_name_for(slug: Seq<char>) -> Seq<char> {
    slug + ".md"@
}

/// The segments of the path of a post below the site's root:
/// `year/month/day/slug.md` for a post with a date, `undated/slug.md` for
/// one without.
pub open spec fn relative_path_of(date: Option<Timestamp>, slug: Seq<char>) -> Seq<Seq<char>> {
    match date {
        Some(date) => seq![
            year_text(date.year as int),
            zero_padded(date.month as nat, 2),
            zero_padded(date.day as nat, 2),
            file_name_for(slug),
        ],
        None => seq!["undated"@, file_name_for(slug)],
    }
}

/// Writes a number with zeros in front, up to a width.
pub fn pad_with_zeros(n: u64, width: usize) -> (r: String)
    ensures
        r@ == zero_padded(n as nat, width as int),
{
    let digits = decimal(n);
    let len = digits.as_str().unicode_len();
    let mut out = String::new();
    let mut i: usize = len;
    assert(out@ =~= zeros(0));
    while i < width
        invariant
            len <= i,
            len <= width ==> i <= width,
            len > width ==> i == len,
            out@ == zeros(i - len),
        decreases width - i,
    {
        out.append("0");
        proof {
            reveal_strlit("0");
            assert(out@ =~= zeros(i + 1 - len));
        }
        i += 1;
    }
    assert(out@ =~= zeros(width - len));
    out.append(digits.as_str());
    out
}

/// Writes a year as `year_text` says.
pub fn format_year(year: i32) -> (r: String)
    ensures
        r@ == year_text(year as int),
{
    let wide: i64 = year as i64;
    if 0 <= wide && wide <= 9999 {
        pad_with_zeros(wide as u64, 4)
    } else if wide < 0 {
        let mut out = "-".to_owned();
        let digits = pad_with_zeros((-wide) as u64, 4);
        out.append(digits.as_str());
        out
    } else {
        let mut out = "+".to_owned();
        let digits = pad_with_zeros(wide as u64, 4);
        out.append(digits.as_str());
        out
    }
}

/// The segments of the path to which a post with this date and slug is
/// written, below the site's root.
pub fn relative_path_for(date: Option<Timestamp>, slug: &str) -> (r: Vec<String>)
    ensures
        texts_view(r@) == relative_path_of(date, slug@),
{
    let mut name = slug.to_owned();
    name.append(".md");
    let mut out: Vec<String> = Vec::new();
    match date {
        Some(date) => {
            out.push(format_year(date.year));
            out.push(pad_with_zeros(date.month as u64, 2));
            out.push(pad_with_zeros(date.day as u64, 2));
        },
        None => {
            out.push("undated".to_owned());
        },
    }
    out.push(name);
    assert(texts_view(out@) =~= relative_path_of(date, slug@));
    out
}

/// The text of an optional column; empty where the column is null.
pub open spec fn text_or_empty(text: Option<String>) -> Seq<char> {
    match text {
        Some(text) => text@,
        None => Seq::<char>::empty(),
    }
}

/// An optional key of the front matter holds the text unless it is empty.
pub open spec fn unless_empty(key: Option<String>, text: Seq<char>) -> bool {
    match key {
        Some(key) => text.len() > 0 && key@ == text,
        None => text.len() == 0,
    }
}

/// The document of a post: the front matter between two lines of `+++`,
/// an empty line, and the content.
pub open spec fn document_of(serialized: Seq<char>, content: Seq<char>) -> Seq<char> {
    "+++\n"@ + quotes_stripped(serialized) + "\n"@ + "+++\n"@ + "\n"@ + footnotes_reified(content)
}

fn text_unless_empty(text: &String) -> (r: Option<String>)
    ensures
        unless_empty(r, text@),
{
    if text.as_str().unicode_len() == 0 {
        None
    } else {
        Some(text.clone())
    }
}

fn clone_or_empty(text: &Option<String>) -> (r: String)
    ensures
        r@ == text_or_empty(*text),
{
    match text {
        Some(text) => text.clone(),
        None => String::new(),
    }
}

impl Post {
    /// Whether `slug` may name the file of this post: the post's own slug
    /// where it has one; else what its title gives, cut to 150 characters;
    /// and for a post without slug and title an identifier of 36
    /// characters.
    pub open spec fn has_slug(&self, slug: Seq<char>) -> bool {
        if self.slug@.len() > 0 {
            slug == self.slug@
        } else if self.title@.len() > 0 {
            slug == slugified(self.title@, MAX_SLUG_LENGTH as int) && slug.len() <= MAX_SLUG_LENGTH
        } else {
            slug.len() == 36
        }
    }

    /// Whether this post is what the row says: null columns read as empty
    /// texts, every status but `published` as a draft, and the internal
    /// links of the content are rewritten.
    pub open spec fn is_from(&self, row: &PostRow) -> bool {
        &&& self.title@ == row.title@
        &&& self.slug@ == row.slug@
        &&& self.description@ == text_or_empty(row.meta_description)
        &&& self.date == row.published_at
        &&& self.updated == row.updated_at
        &&& self.status == status_of(row.status@)
        &&& self.extra.id == row.id
        &&& self.extra.language@ == row.language@
        &&& self.extra.author_name@ == row.author_name@
        &&& self.taxonomies@ == texts_view(row.tags@)
        &&& self.content@ == links_rewritten(text_or_empty(row.markdown))
    }

    /// Whether these are the keys of this post's front matter: empty
    /// texts and missing dates are left out, and `draft` is there only
    /// for a draft.
    pub open spec fn has_front_matter(&self, keys: &FrontMatter) -> bool {
        &&& keys.title@ == self.title@
        &&& unless_empty(keys.slug, self.slug@)
        &&& unless_empty(keys.description, self.description@)
        &&& keys.date == self.date
        &&& keys.updated == self.updated
        &&& keys.draft == if self.status == Status::Draft {
            Some(true)
        } else {
            None
        }
        &&& keys.extra.id == self.extra.id
        &&& keys.extra.language@ == self.extra.language@
        &&& keys.extra.author_name@ == self.extra.author_name@
        &&& keys.taxonomies@ == self.taxonomies@
    }

    /// Makes a post of one row of the database.
    pub fn from_row(row: &PostRow) -> (r: Post)
        ensures
            r.is_from(row),
    {
        let status = match Status::from_str(row.status.as_str()) {
            Ok(status) => status,
            Err(_) => Status::Draft,
        };
        let markdown = clone_or_empty(&row.markdown);
        Post {
            title: row.title.clone(),
            slug: row.slug.clone(),
            description: clone_or_empty(&row.meta_description),
            date: row.published_at,
            updated: row.updated_at,
            status,
            extra: Extra {
                id: row.id,
                language: row.language.clone(),
                author_name: row.author_name.clone(),
            },
            taxonomies: Taxonomies::new(clone_texts(&row.tags)),
            content: relative_internal_links(markdown.as_str()),
        }
    }

    /// Makes the posts of the rows that the database gave, in their order.
    pub fn query(rows: &Vec<PostRow>) -> (r: Vec<Post>)
        ensures
            r@.len() == rows@.len(),
            forall|i: int| 0 <= i < rows@.len() ==> (#[trigger] r@[i]).is_from(&rows@[i]),
    {
        let mut out: Vec<Post> = Vec::new();
        let mut i: usize = 0;
        while i < rows.len()
            invariant
                i <= rows.len(),
                out@.len() == i,
                forall|j: int| 0 <= j < i ==> (#[trigger] out@[j]).is_from(&rows@[j]),
            decreases rows.len() - i,
        {
            out.push(Post::from_row(&rows[i]));
            i += 1;
        }
        out
    }

    /// Gives the post these tags in place of those it had.
    pub fn update_tags(&mut self, tags: Vec<String>)
        ensures
            final(self).taxonomies@ == texts_view(tags@),
            final(self).title == old(self).title,
            final(self).slug == old(self).slug,
            final(self).description == old(self).description,
            final(self).date == old(self).date,
            final(self).updated == old(self).updated,
            final(self).status == old(self).status,
            final(self).extra == old(self).extra,
            final(self).content == old(self).content,
    {
        self.taxonomies = Taxonomies::new(tags);
    }

    /// The keys of the post's front matter.
    pub fn front_matter(&self) -> (r: FrontMatter)
        ensures
            self.has_front_matter(&r),
    {
        FrontMatter {
            title: self.title.clone(),
            slug: text_unless_empty(&self.slug),
            description: text_unless_empty(&self.description),
            date: self.date,
            updated: self.updated,
            draft: if self.status.draft() {
                Some(true)
            } else {
                None
            },
            extra: Extra {
                id: self.extra.id,
                language: self.extra.language.clone(),
                author_name: self.extra.author_name.clone(),
            },
            taxonomies: Taxonomies::new(clone_texts(self.taxonomies.tags())),
        }
    }

    /// Makes the front matter ready from its serialised keys: dates that
    /// were written as quoted texts become datetime literals.
    pub fn render_toml(&self, serialized: &str) -> (r: String)
        ensures
            r@ == quotes_stripped(serialized@),
    {
        strip_datetime_quotes(serialized)
    }

    /// Appends the post's document to `writer`: the front matter, made
    /// from its serialised keys, and the content with its footnotes
    /// numbered.
    pub fn render_to(&self, serialized: &str, writer: &mut String)
        ensures
            final(writer)@ == old(writer)@ + document_of(serialized@, self.content@),
    {
        let front = self.render_toml(serialized);
        let content = reify_footnotes(self.content.as_str());
        let ghost before = writer@;
        writer.append("+++\n");
        writer.append(front.as_str());
        writer.append("\n");
        writer.append("+++\n");
        writer.append("\n");
        writer.append(content.as_str());
        assert(writer@ =~= before + document_of(serialized@, self.content@));
    }

    /// The post's document as a text.
    pub fn render(&self, serialized: &str) -> (r: String)
        ensures
            r@ == document_of(serialized@, self.content@),
    {
        let mut out = String::new();
        self.render_to(serialized, &mut out);
        assert(out@ =~= document_of(serialized@, self.content@));
        out
    }

    /// The slug rule: a slug that the post has wins over one made from
    /// its title; a post without slug and title still gets a slug that is
    /// not empty; and a slug made from a title is never longer than 150
    /// characters.
    pub proof fn lemma_slug_rule(&self, slug: Seq<char>)
        requires
            self.has_slug(slug),
        ensures
            self.slug@.len() > 0 ==> slug == self.slug@,
            self.slug@.len() == 0 && self.title@.len() == 0 ==> slug.len() > 0,
            self.slug@.len() == 0 && self.title@.len() > 0 ==> slug.len() <= 150 && slug
                == slugified(self.title@, 150),
    {
    }

    /// Makes a safe slug for this post: the slug that it has; else one
    /// made from its title; and for a post without a title an identifier
    /// drawn at random.
    pub fn slug(&self) -> (r: String)
        ensures
            self.has_slug(r@),
    {
        if self.slug.as_str().unicode_len() == 0 {
            if self.title.as_str().unicode_len() == 0 {
                random_identifier()
            } else {
                slugify_title(self.title.as_str(), MAX_SLUG_LENGTH)
            }
        } else {
            self.slug.clone()
        }
    }

    /// The segments of the path below the site's root to which this post
    /// is written.
    pub fn relative_path(&self) -> (r: Vec<String>)
        ensures
            exists|slug: Seq<char>| #[trigger]
                self.has_slug(slug) && texts_view(r@) == relative_path_of(self.date, slug),
    {
        let slug = self.slug();
        let path = relative_path_for(self.date, slug.as_str());
        assert(self.has_slug(slug@) && texts_view(path@) == relative_path_of(self.date, slug@));
        path
    }
}

} // verus!
