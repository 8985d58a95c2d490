//! Reading the listings of the catalog, which come as tables of text.
//!
//! The blocks of the candidates' list and the rows of the Java table are
//! found with regular expressions; what the expressions find is read here.

use vstd::prelude::*;
use crate::std_text::lowercase;
use crate::config::option_view;
use crate::cut::{
    lines,
    lines_of,
    rfind,
    rfind_text,
    slice,
    trim,
    trimmed,
    unfold,
    unfolded,
    utf8_width,
    width,
    words,
    words_of,
};
use crate::models::{
    category_of,
    jdk_tags,
    Category,
    JdkCategory,
    Sdk,
    SdkVersion,
    SdkVersionView,
    SdkView,
};
use crate::text::{
    chars_of,
    contains,
    contains_text,
    matches_at,
    starts_with,
    starts_with_text,
    string_of,
};

verus! {

/// One block of the candidates' list: a rule, the line with name, version
/// and website, an empty line, the description, and the command that names
/// the candidate.
pub const CANDIDATE_PATTERN: &'static str =
    r"(?s)---\r*\n(.+?)\r*\n\r*\n(.*?)\$ sdk install(.*?)\r*\n";

/// One row of the Java table: six columns with a bar between each two.
pub const JAVA_VERSION_PATTERN: &'static str = r"(.*?)\|(.*?)\|(.*?)\|(.*?)\|(.*?)\|(.*)";

/// The head of the first column of the Java table.
pub const VENDOR_HEADER_NAME: &'static str = "Vendor";

/// Why a listing could not be read.
#[derive(Clone, Copy, Debug, PartialEq, Eq, Structural)]
pub enum ParseError {
    /// A pattern of this library was not accepted as a regular expression.
    PatternRejected,
    /// A line is at least five bytes long, and its fifth byte ends in the
    /// middle of a character.
    MarkerSplit,
}

#[verifier::external_type_specification]
#[verifier::external_body]
pub struct ExRegexError(regex::Error);

/// What a regular expression finds in a text: for every match, in order and
/// without overlap, the text of each group, the whole match being group 0; a
/// group that took no part has none. There is no answer where the pattern is
/// not accepted as a regular expression.
pub uninterp spec fn regex_groups(pattern: Seq<char>, text: Seq<char>) -> Option<
    Seq<Seq<Option<Seq<char>>>>,
>;

/// Whether a regular expression matches somewhere in a text. There is no
/// answer where the pattern is not accepted as a regular expression.
pub uninterp spec fn regex_is_match(pattern: Seq<char>, text: Seq<char>) -> Option<bool>;

/// The groups of one match, over plain values.
pub open spec fn match_view(groups: Vec<Option<String>>) -> Seq<Option<Seq<char>>> {
    groups@.map_values(|group: Option<String>| option_view(group))
}

/// The groups of all matches, over plain values.
pub open spec fn matches_view(found: Seq<Vec<Option<String>>>) -> Seq<Seq<Option<Seq<char>>>> {
    found.map_values(|groups: Vec<Option<String>>| match_view(groups))
}

/// `Regex::new` and `Regex::captures_iter` of the regex crate, with
/// `Captures::get` and `Match::as_str` for every group of every match. What
/// they find is a function of pattern and text alone, and goes by the name
/// `regex_groups`; the error is that of `Regex::new`.
#[verifier::external_body]
fn find_groups(pattern: &str, text: &str) -> (found: Result<
    Vec<Vec<Option<String>>>,
    regex::Error,
>)
    ensures
        match found {
            Ok(groups) => regex_groups(pattern@, text@) == Some(matches_view(groups@)),
            Err(_) => regex_groups(pattern@, text@) is None,
        },
{
    let re = regex::Regex::new(pattern)?;
    let mut found = Vec::new();
    for caps in re.captures_iter(text) {
        found.push((0..caps.len()).map(|i| caps.get(i).map(|m| m.as_str().to_string())).collect());
    }
    Ok(found)
}

/// `Regex::new` and `Regex::is_match` of the regex crate. The answer is a
/// function of pattern and text alone, and goes by the name `regex_is_match`;
/// the error is that of `Regex::new`.
#[verifier::external_body]
fn has_match(pattern: &str, text: &str) -> (found: Result<bool, regex::Error>)
    ensures
        match found {
            Ok(yes) => regex_is_match(pattern@, text@) == Some(yes),
            Err(_) => regex_is_match(pattern@, text@) is None,
        },
{
    let re = regex::Regex::new(pattern)?;
    Ok(re.is_match(text))
}

/// The text of group `k` of a match; empty where the group took no part.
pub open spec fn group_text(groups: Seq<Option<Seq<char>>>, k: int) -> Seq<char> {
    if 0 <= k < groups.len() {
        match groups[k] {
            Some(text) => text,
            None => Seq::empty(),
        }
    } else {
        Seq::empty()
    }
}

/// What a line says behind its last opening bracket: the version between
/// that bracket and the last closing one, and the name before it. A line
/// without such a pair of brackets is all name.
pub open spec fn split_version(line: Seq<char>) -> (Option<Seq<char>>, Seq<char>) {
    match (rfind_text(line, seq!['(']), rfind_text(line, seq![')'])) {
        (Some(open), Some(close)) => if close > open {
            (Some(trimmed(line.subrange(open + 1, close))), trimmed(line.take(open)))
        } else {
            (None, line)
        },
        _ => (None, line),
    }
}

/// A candidate, from the three groups of its block: the first line, the
/// description and what follows the install command. The first line ends in
/// the website, from the last `http` on, if there is one; what stands before
/// it ends in the version, in brackets, if there is one; the rest is the name.
pub open spec fn candidate_of(first: Seq<char>, second: Seq<char>, third: Seq<char>) -> SdkView {
    let line = trimmed(first);
    let description = unfolded(trimmed(second));
    let id = trimmed(third);
    let website = match rfind_text(line, "http"@) {
        Some(at) => Some(trimmed(line.skip(at))),
        None => None,
    };
    let titled = match rfind_text(line, "http"@) {
        Some(at) => trimmed(line.take(at)),
        None => line,
    };
    SdkView {
        candidate: id,
        name: split_version(titled).1,
        description,
        website,
        latest_version: split_version(titled).0,
        installed_version: None,
        installed: false,
        category: category_of(lowercase(id), lowercase(description)),
    }
}

/// The candidates of all blocks.
pub open spec fn candidates_of(found: Seq<Seq<Option<Seq<char>>>>) -> Seq<SdkView> {
    found.map_values(
        |groups: Seq<Option<Seq<char>>>|
            candidate_of(group_text(groups, 1), group_text(groups, 2), group_text(groups, 3)),
    )
}

/// The candidates, over plain values.
pub open spec fn sdk_views(sdks: Seq<Sdk>) -> Seq<SdkView> {
    sdks.map_values(|sdk: Sdk| sdk@)
}

/// The versions, over plain values.
pub open spec fn version_views(versions: Seq<SdkVersion>) -> Seq<SdkVersionView> {
    versions.map_values(|version: SdkVersion| version@)
}

/// The text of group `k` of a match; empty where the group took no part.
fn group(groups: &Vec<Option<String>>, k: usize) -> (text: Vec<char>)
    ensures
        text@ == group_text(match_view(*groups), k as int),
{
    if k < groups.len() {
        match &groups[k] {
            Some(text) => chars_of(text.as_str()),
            None => Vec::new(),
        }
    } else {
        Vec::new()
    }
}

/// The string of some characters.
fn text_of(chars: &Vec<char>) -> (text: String)
    ensures
        text@ == chars@,
{
    assert(chars@.subrange(0, chars@.len() as int) =~= chars@);
    string_of(chars, 0, chars.len())
}

/// Reads the listings of the catalog.
pub struct ResponseParser;

impl ResponseParser {
    /// The candidates of the catalog's list. A list that is empty or all
    /// white space has none.
    pub fn parse_candidates(response: &str) -> (sdks: Result<Vec<Sdk>, ParseError>)
        ensures
            match sdks {
                Ok(sdks) => if trimmed(response@).len() == 0 {
                    sdks@.len() == 0
                } else {
                    regex_groups(CANDIDATE_PATTERN@, response@) matches Some(found) && sdk_views(
                        sdks@,
                    ) == candidates_of(found)
                },
                Err(e) => trimmed(response@).len() > 0 && regex_groups(
                    CANDIDATE_PATTERN@,
                    response@,
                ) is None && e == ParseError::PatternRejected,
            },
    {
        if trim(&chars_of(response)).len() == 0 {
            return Ok(Vec::new());
        }
        match find_groups(CANDIDATE_PATTERN, response) {
            Ok(found) => Ok(ResponseParser::candidates_from(&found)),
            Err(_) => Err(ParseError::PatternRejected),
        }
    }

    /// The candidates of the blocks that the pattern found in the list.
    pub fn candidates_from(found: &Vec<Vec<Option<String>>>) -> (sdks: Vec<Sdk>)
        ensures
            sdk_views(sdks@) == candidates_of(matches_view(found@)),
    {
        let mut sdks: Vec<Sdk> = Vec::new();
        let mut i: usize = 0;
        while i < found.len()
            invariant
                i <= found.len(),
                sdks@.len() == i,
                forall|k: int| 0 <= k < i ==> (#[trigger] sdks@[k])@ == candidates_of(
                    matches_view(found@),
                )[k],
            decreases found.len() - i,
        {
            let sdk = ResponseParser::candidate_from(&found[i]);
            sdks.push(sdk);
            i += 1;
        }
        assert(sdk_views(sdks@) =~= candidates_of(matches_view(found@)));
        sdks
    }

    /// The candidate of one block.
    fn candidate_from(groups: &Vec<Option<String>>) -> (sdk: Sdk)
        ensures
            sdk@ == candidate_of(
                group_text(match_view(*groups), 1),
                group_text(match_view(*groups), 2),
                group_text(match_view(*groups), 3),
            ),
    {
        let line = trim(&group(groups, 1));
        let description = text_of(&unfold(&trim(&group(groups, 2))));
        let id = text_of(&trim(&group(groups, 3)));
        let category = Category::from_name(id.as_str(), description.as_str());
        let (website, titled) = match rfind(&line, &chars_of("http")) {
            Some(at) => {
                proof {
                    assert(line@.skip(at as int) =~= line@.subrange(at as int, line@.len() as int));
                    assert(line@.take(at as int) =~= line@.subrange(0, at as int));
                }
                (
                    Some(text_of(&trim(&slice(&line, at, line.len())))),
                    trim(&slice(&line, 0, at)),
                )
            },
            None => (None, line),
        };
        let open_mark = vec!['('];
        let close_mark = vec![')'];
        assert(open_mark@ =~= seq!['(']);
        assert(close_mark@ =~= seq![')']);
        let open = rfind(&titled, &open_mark);
        let close = rfind(&titled, &close_mark);
        let (latest_version, name) = match (open, close) {
            (Some(open), Some(close)) => {
                if close > open {
                    proof {
                        assert(titled@.take(open as int) =~= titled@.subrange(0, open as int));
                    }
                    (
                        Some(text_of(&trim(&slice(&titled, open + 1, close)))),
                        text_of(&trim(&slice(&titled, 0, open))),
                    )
                } else {
                    (None, text_of(&titled))
                }
            },
            _ => (None, text_of(&titled)),
        };
        Sdk {
            candidate: id,
            name,
            description,
            website,
            latest_version,
            installed_version: None,
            installed: false,
            category,
        }
    }
}


/// The vendor that holds for the last of some rows of the Java table: the
/// one that a row names stays until another row names another. The row of
/// the column heads names none.
pub open spec fn vendor_after(found: Seq<Seq<Option<Seq<char>>>>) -> Seq<char>
    decreases found.len(),
{
    if found.len() == 0 {
        Seq::empty()
    } else {
        let column = trimmed(group_text(found.last(), 1));
        if column == VENDOR_HEADER_NAME@ || column.len() == 0 {
            vendor_after(found.drop_last())
        } else {
            column
        }
    }
}

/// A version of the Java table, from the groups of its row and the vendor
/// that holds for it. It is installed where its status says so or its use
/// column holds a star, and in use where that column holds an arrow head.
pub open spec fn java_row(
    groups: Seq<Option<Seq<char>>>,
    vendor: Seq<char>,
    candidate: Seq<char>,
) -> SdkVersionView {
    let used = trimmed(group_text(groups, 2));
    let status = trimmed(group_text(groups, 5));
    let identifier = trimmed(group_text(groups, 6));
    SdkVersionView {
        version: trimmed(group_text(groups, 3)),
        identifier,
        vendor,
        categories: jdk_tags(lowercase(identifier)),
        candidate,
        installed: contains_text(status, "installed"@) || contains_text(used, seq!['*']),
        is_default: contains_text(used, seq!['>']),
        in_use: contains_text(used, seq!['>']),
        installing: None,
        install_progress: None,
    }
}

/// The versions of the Java table, from the rows that the pattern found:
/// every row but the one of the column heads and those without an
/// identifier.
pub open spec fn java_rows(found: Seq<Seq<Option<Seq<char>>>>, candidate: Seq<char>) -> Seq<
    SdkVersionView,
>
    decreases found.len(),
{
    if found.len() == 0 {
        Seq::empty()
    } else {
        let before = java_rows(found.drop_last(), candidate);
        let groups = found.last();
        if trimmed(group_text(groups, 1)) == VENDOR_HEADER_NAME@ || trimmed(
            group_text(groups, 6),
        ).len() == 0 {
            before
        } else {
            before.push(java_row(groups, vendor_after(found), candidate))
        }
    }
}

/// How many characters of a line take up its first `bytes` bytes; all of
/// them where the line is shorter. There is no answer where that many bytes
/// end in the middle of a character.
pub open spec fn cut_at(line: Seq<char>, bytes: nat) -> Option<int>
    decreases line.len(),
{
    if line.len() == 0 || bytes == 0 {
        Some(0)
    } else if utf8_width(line[0]) > bytes {
        None
    } else {
        match cut_at(line.drop_first(), (bytes - utf8_width(line[0])) as nat) {
            Some(k) => Some(k + 1),
            None => None,
        }
    }
}

/// The number of bytes that a character takes in UTF-8 is the length of its
/// encoding.
pub proof fn lemma_width_is_encoded_length(c: char)
    ensures
        vstd::utf8::encode_scalar(c as u32).len() == utf8_width(c),
{
    vstd::utf8::char_is_scalar(c);
}

/// The encoding of the first characters of a text, from that of the first
/// one and that of the rest.
proof fn lemma_encode_take(line: Seq<char>, k: int)
    requires
        1 <= k <= line.len(),
    ensures
        vstd::utf8::encode_utf8(line.take(k)).len() == utf8_width(line[0])
            + vstd::utf8::encode_utf8(line.drop_first().take(k - 1)).len(),
{
    lemma_width_is_encoded_length(line[0]);
    assert(line.take(k)[0] == line[0]);
    assert(line.take(k).drop_first() =~= line.drop_first().take(k - 1));
}

/// A line is cut where its first bytes end, in bytes of its UTF-8 encoding:
/// after the whole line where it has no more bytes than asked for, else after
/// the characters that take exactly that many. It is not cut where no run of
/// its first characters takes exactly that many bytes.
pub proof fn lemma_cut_counts_bytes(line: Seq<char>, bytes: nat)
    ensures
        match cut_at(line, bytes) {
            Some(k) => 0 <= k <= line.len() && if vstd::utf8::encode_utf8(line).len() <= bytes {
                k == line.len()
            } else {
                vstd::utf8::encode_utf8(line.take(k)).len() == bytes
            },
            None => vstd::utf8::encode_utf8(line).len() > bytes && forall|k: int|
                0 <= k <= line.len() ==> vstd::utf8::encode_utf8(#[trigger] line.take(k)).len()
                    != bytes,
        },
    decreases line.len(),
{
    if line.len() == 0 {
    } else {
        let first = utf8_width(line[0]);
        let rest = line.drop_first();
        lemma_width_is_encoded_length(line[0]);
        assert(line.take(0) =~= Seq::<char>::empty());
        if bytes == 0 {
        } else if first > bytes {
            assert forall|k: int| 0 <= k <= line.len() implies vstd::utf8::encode_utf8(
                #[trigger] line.take(k),
            ).len() != bytes by {
                if k >= 1 {
                    lemma_encode_take(line, k);
                }
            }
        } else {
            let left = (bytes - first) as nat;
            lemma_cut_counts_bytes(rest, left);
            match cut_at(rest, left) {
                Some(k) => {
                    lemma_encode_take(line, k + 1);
                },
                None => {
                    assert forall|k: int| 0 <= k <= line.len() implies vstd::utf8::encode_utf8(
                        #[trigger] line.take(k),
                    ).len() != bytes by {
                        if k >= 1 {
                            lemma_encode_take(line, k);
                            assert(vstd::utf8::encode_utf8(rest.take(k - 1)).len() != left);
                        }
                    }
                },
            }
        }
    }
}

/// A version of a plain table: its name is its identifier. Only the first of
/// a line can be marked.
pub open spec fn plain_row(word: Seq<char>, first: bool, marks: Seq<char>, candidate: Seq<char>) -> SdkVersionView {
    let in_use = contains_text(marks, seq!['>']);
    let installed = contains_text(marks, seq!['*']);
    SdkVersionView {
        version: word,
        identifier: word,
        vendor: Seq::empty(),
        categories: Seq::empty(),
        candidate,
        installed: first && (installed || in_use),
        is_default: first && in_use,
        in_use: first && in_use,
        installing: None,
        install_progress: None,
    }
}

/// The versions of one line of a plain table: the first five bytes are the
/// place of the marks, the words behind them are versions.
pub open spec fn line_rows(line: Seq<char>, candidate: Seq<char>) -> Option<Seq<SdkVersionView>> {
    match cut_at(line, 5) {
        None => None,
        Some(k) => Some(
            words_of(line.skip(k)).map(
                |i: int, word: Seq<char>| plain_row(word, i == 0, line.take(k), candidate),
            ),
        ),
    }
}

/// The versions of a plain table from line `i` on. The first three lines
/// are the head. A line that begins with a rule of `=` ends the table, and
/// empty lines count for nothing.
pub open spec fn rows_from(all: Seq<Seq<char>>, i: int, candidate: Seq<char>) -> Option<
    Seq<SdkVersionView>,
>
    decreases all.len() - i,
{
    if i < 0 || i >= all.len() {
        Some(Seq::empty())
    } else if i < 3 {
        rows_from(all, i + 1, candidate)
    } else if starts_with_text(trimmed(all[i]), "====="@) {
        Some(Seq::empty())
    } else if trimmed(all[i]).len() == 0 {
        rows_from(all, i + 1, candidate)
    } else {
        match (line_rows(all[i], candidate), rows_from(all, i + 1, candidate)) {
            (Some(here), Some(rest)) => Some(here + rest),
            _ => None,
        }
    }
}

/// The versions of a listing, given what the pattern of the Java table
/// finds in it: whether it matches, and the rows. A listing that the pattern
/// matches and that holds the head of the vendor column is a Java table;
/// every other one is a plain table.
pub open spec fn versions_of(
    response: Seq<char>,
    candidate: Seq<char>,
    is_match: Option<bool>,
    found: Option<Seq<Seq<Option<Seq<char>>>>>,
) -> Result<Seq<SdkVersionView>, ParseError> {
    if trimmed(response).len() == 0 {
        Ok(Seq::empty())
    } else {
        match is_match {
            None => Err(ParseError::PatternRejected),
            Some(yes) => if yes && contains_text(response, VENDOR_HEADER_NAME@) {
                match found {
                    Some(found) => Ok(java_rows(found, candidate)),
                    None => Err(ParseError::PatternRejected),
                }
            } else {
                match rows_from(lines_of(response), 0, candidate) {
                    Some(rows) => Ok(rows),
                    None => Err(ParseError::MarkerSplit),
                }
            },
        }
    }
}

/// Whether the versions read are the ones meant.
pub open spec fn reads_as(
    read: Result<Vec<SdkVersion>, ParseError>,
    meant: Result<Seq<SdkVersionView>, ParseError>,
) -> bool {
    match read {
        Ok(versions) => meant == Ok::<Seq<SdkVersionView>, ParseError>(version_views(versions@)),
        Err(e) => meant == Err::<Seq<SdkVersionView>, ParseError>(e),
    }
}

impl ResponseParser {
    /// The versions of a listing: those of a Java table, or else those of a
    /// plain table. A listing that is empty or all white space has none.
    pub fn parse_versions(response: &str, candidate: &str) -> (versions: Result<
        Vec<SdkVersion>,
        ParseError,
    >)
        ensures
            reads_as(
                versions,
                versions_of(
                    response@,
                    candidate@,
                    regex_is_match(JAVA_VERSION_PATTERN@, response@),
                    regex_groups(JAVA_VERSION_PATTERN@, response@),
                ),
            ),
    {
        let text = chars_of(response);
        if trim(&text).len() == 0 {
            let none: Vec<SdkVersion> = Vec::new();
            assert(version_views(none@) =~= Seq::<SdkVersionView>::empty());
            return Ok(none);
        }
        let is_table = match has_match(JAVA_VERSION_PATTERN, response) {
            Ok(yes) => yes,
            Err(_) => {
                return Err(ParseError::PatternRejected);
            },
        };
        if is_table && contains(&text, &chars_of(VENDOR_HEADER_NAME)) {
            ResponseParser::parse_java_versions(response, candidate)
        } else {
            ResponseParser::parse_other_versions(response, candidate)
        }
    }

    /// The versions of a Java table.
    pub fn parse_java_versions(response: &str, candidate: &str) -> (versions: Result<
        Vec<SdkVersion>,
        ParseError,
    >)
        ensures
            match versions {
                Ok(versions) => regex_groups(JAVA_VERSION_PATTERN@, response@) matches Some(found)
                    && version_views(versions@) == java_rows(found, candidate@),
                Err(e) => regex_groups(JAVA_VERSION_PATTERN@, response@) is None && e
                    == ParseError::PatternRejected,
            },
    {
        match find_groups(JAVA_VERSION_PATTERN, response) {
            Ok(found) => Ok(ResponseParser::java_versions_from(&found, candidate)),
            Err(_) => Err(ParseError::PatternRejected),
        }
    }

    /// The versions of the rows that the pattern found in a Java table.
    pub fn java_versions_from(found: &Vec<Vec<Option<String>>>, candidate: &str) -> (versions: Vec<
        SdkVersion,
    >)
        ensures
            version_views(versions@) == java_rows(matches_view(found@), candidate@),
    {
        let mut versions: Vec<SdkVersion> = Vec::new();
        let mut vendor: Vec<char> = Vec::new();
        let header = chars_of(VENDOR_HEADER_NAME);
        let ghost all = matches_view(found@);
        let mut i: usize = 0;
        proof {
            assert(all.take(0) =~= Seq::<Seq<Option<Seq<char>>>>::empty());
            assert(version_views(versions@) =~= java_rows(all.take(0), candidate@));
        }
        while i < found.len()
            invariant
                i <= found.len(),
                all == matches_view(found@),
                header@ == VENDOR_HEADER_NAME@,
                vendor@ == vendor_after(all.take(i as int)),
                version_views(versions@) == java_rows(all.take(i as int), candidate@),
            decreases found.len() - i,
        {
            let groups = &found[i];
            proof {
                assert(all.take(i + 1).drop_last() =~= all.take(i as int));
                assert(all.take(i + 1).last() == match_view(*groups));
            }
            let column = trim(&group(groups, 1));
            let used = trim(&group(groups, 2));
            let version = trim(&group(groups, 3));
            let status = trim(&group(groups, 5));
            let identifier = trim(&group(groups, 6));
            assert(column@.subrange(0, column@.len() as int) =~= column@);
            let is_header = column.len() == header.len() && matches_at(&column, &header, 0);
            if !is_header {
                if column.len() > 0 {
                    vendor = column;
                }
                if identifier.len() > 0 {
                    let star = vec!['*'];
                    let arrow = vec!['>'];
                    assert(star@ =~= seq!['*']);
                    assert(arrow@ =~= seq!['>']);
                    let installed = contains(&status, &chars_of("installed")) || contains(
                        &used,
                        &star,
                    );
                    let in_use = contains(&used, &arrow);
                    let name = text_of(&identifier);
                    let categories = JdkCategory::from_identifier(name.as_str());
                    let ghost before = version_views(versions@);
                    let row = SdkVersion {
                        version: text_of(&version),
                        identifier: name,
                        vendor: text_of(&vendor),
                        categories,
                        candidate: String::from_str(candidate),
                        installed,
                        is_default: in_use,
                        in_use,
                        installing: None,
                        install_progress: None,
                    };
                    assert(row@ == java_row(
                        match_view(*groups),
                        vendor_after(all.take(i + 1)),
                        candidate@,
                    ));
                    versions.push(row);
                    assert(version_views(versions@) =~= before.push(row@));
                }
            }
            i += 1;
        }
        assert(all.take(found@.len() as int) =~= all);
        versions
    }

    /// The versions of a plain table.
    pub fn parse_other_versions(response: &str, candidate: &str) -> (versions: Result<
        Vec<SdkVersion>,
        ParseError,
    >)
        ensures
            match versions {
                Ok(versions) => rows_from(lines_of(response@), 0, candidate@) == Some(
                    version_views(versions@),
                ),
                Err(e) => rows_from(lines_of(response@), 0, candidate@) is None && e
                    == ParseError::MarkerSplit,
            },
    {
        let rows = lines(&chars_of(response));
        let ghost all = lines_of(response@);
        let rule = chars_of("=====");
        let mut versions: Vec<SdkVersion> = Vec::new();
        let mut i: usize = 0;
        assert(version_views(versions@) =~= Seq::<SdkVersionView>::empty());
        while i < rows.len()
            invariant
                i <= rows.len(),
                all == lines_of(response@),
                rows@.len() == all.len(),
                forall|k: int| 0 <= k < rows@.len() ==> (#[trigger] rows@[k])@ == all[k],
                rule@ == "====="@,
                rows_from(all, 0, candidate@) == match rows_from(all, i as int, candidate@) {
                    Some(rest) => Some(version_views(versions@) + rest),
                    None => None,
                },
            decreases rows.len() - i,
        {
            let line = &rows[i];
            assert(line@ == all[i as int]);
            if i >= 3 {
                let bare = trim(line);
                if starts_with(&bare, &rule) {
                    assert(version_views(versions@) + Seq::<SdkVersionView>::empty()
                        =~= version_views(versions@));
                    return Ok(versions);
                }
                if bare.len() > 0 {
                    let ghost before = version_views(versions@);
                    let ghost rest = rows_from(all, i + 1, candidate@);
                    if !ResponseParser::push_line(&mut versions, line, candidate) {
                        return Err(ParseError::MarkerSplit);
                    }
                    proof {
                        let here = line_rows(line@, candidate@)->0;
                        if rest is Some {
                            assert((before + here) + rest->0 =~= before + (here + rest->0));
                        }
                    }
                }
            }
            i += 1;
        }
        assert(version_views(versions@) + Seq::<SdkVersionView>::empty() =~= version_views(
            versions@,
        ));
        Ok(versions)
    }

    /// Adds the versions of one line of a plain table, and says whether the
    /// line could be read.
    fn push_line(versions: &mut Vec<SdkVersion>, line: &Vec<char>, candidate: &str) -> (read: bool)
        ensures
            read == line_rows(line@, candidate@) is Some,
            read ==> version_views(final(versions)@) == version_views(old(versions)@) + line_rows(
                line@,
                candidate@,
            )->0,
            !read ==> final(versions)@ == old(versions)@,
    {
        let mut k: usize = 0;
        let mut left: usize = 5;
        proof {
            assert(line@.skip(0) =~= line@);
        }
        while k < line.len() && left > 0
            invariant
                k <= line.len(),
                left <= 5,
                *versions == *old(versions),
                cut_at(line@, 5) == match cut_at(line@.skip(k as int), left as nat) {
                    Some(more) => Some(k + more),
                    None => None,
                },
            decreases line.len() - k,
        {
            let w = width(line[k]);
            proof {
                assert(line@.skip(k as int)[0] == line@[k as int]);
                assert(line@.skip(k as int).drop_first() =~= line@.skip(k + 1));
            }
            if w > left {
                return false;
            }
            left -= w;
            k += 1;
        }
        assert(cut_at(line@, 5) == Some(k as int));
        let marks = slice(line, 0, k);
        let area = slice(line, k, line.len());
        proof {
            assert(line@.take(k as int) =~= line@.subrange(0, k as int));
            assert(line@.skip(k as int) =~= line@.subrange(k as int, line@.len() as int));
        }
        let star = vec!['*'];
        let arrow = vec!['>'];
        assert(star@ =~= seq!['*']);
        assert(arrow@ =~= seq!['>']);
        let in_use = contains(&marks, &arrow);
        let installed = contains(&marks, &star);
        let found = words(&area);
        let ghost before = version_views(versions@);
        let ghost here = line_rows(line@, candidate@)->0;
        let mut i: usize = 0;
        while i < found.len()
            invariant
                i <= found.len(),
                found@.len() == words_of(area@).len(),
                forall|j: int| 0 <= j < found@.len() ==> (#[trigger] found@[j])@ == words_of(
                    area@,
                )[j],
                here == words_of(area@).map(
                    |i: int, word: Seq<char>| plain_row(word, i == 0, marks@, candidate@),
                ),
                in_use == contains_text(marks@, seq!['>']),
                installed == contains_text(marks@, seq!['*']),
                version_views(versions@) == before + here.take(i as int),
            decreases found.len() - i,
        {
            let first = i == 0;
            let word = text_of(&found[i]);
            let ghost so_far = version_views(versions@);
            let row = SdkVersion {
                version: word.clone(),
                identifier: word,
                vendor: String::new(),
                categories: Vec::new(),
                candidate: String::from_str(candidate),
                installed: first && (installed || in_use),
                is_default: first && in_use,
                in_use: first && in_use,
                installing: None,
                install_progress: None,
            };
            assert(row@ == here[i as int]);
            versions.push(row);
            proof {
                assert(version_views(versions@) =~= so_far.push(row@));
                assert(here.take(i + 1) =~= here.take(i as int).push(here[i as int]));
                assert(before + here.take(i + 1) =~= (before + here.take(i as int)).push(
                    here[i as int],
                ));
            }
            i += 1;
        }
        proof {
            assert(here.take(found@.len() as int) =~= here);
        }
        true
    }
}

} // verus!
