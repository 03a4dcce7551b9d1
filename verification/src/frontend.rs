//! The version record: the applications that a deployment declares, each
//! with its version, and the edit that moves one of them to a new version.

use crate::document::{
    parse_toml, toml_literal, toml_member, toml_parse, toml_span, toml_text, write_literal,
    TomlNode,
};
use crate::error::ErrorKind;
use crate::text::same_text;
use vstd::prelude::*;
use vstd::string::StringExecFns;
use vstd::string::StringSliceAdditionalSpecFns;
use vstd::utf8::{
    decode_utf8, decode_utf8_split, encode_utf8, encode_utf8_decode_utf8, encode_utf8_valid_utf8,
    is_char_boundary, is_char_boundary_iff_not_is_continuation_byte,
    is_char_boundary_start_end_of_seq, valid_utf8_split,
};

verus! {

/// One application of the record.
#[derive(Clone, Debug)]
pub struct Application {
    /// The version that the record declares.
    pub version: String,
    /// The address of the Helm repository that publishes the application.
    pub helm: Option<String>,
    /// The name of its chart, where it differs from the application's own.
    pub chart: Option<String>,
}

/// The version record: the applications by name, in the order in which they
/// were given.
#[derive(Debug)]
pub struct VersionFile {
    pub apps: Vec<(String, Application)>,
}

/// Whether no name occurs twice in `apps`.
pub open spec fn names_distinct(apps: Seq<(String, Application)>) -> bool {
    forall|i: int, j: int|
        0 <= i < j < apps.len() ==> (#[trigger] apps[i]).0@ != (#[trigger] apps[j]).0@
}

/// Whether `apps` holds an application called `name`.
pub open spec fn has_name(apps: Seq<(String, Application)>, name: Seq<char>) -> bool {
    exists|i: int| 0 <= i < apps.len() && (#[trigger] apps[i]).0@ == name
}

/// Whether entry `i` is the first of `apps` that is called `name`.
pub open spec fn is_first_named(apps: Seq<(String, Application)>, name: Seq<char>, i: int) -> bool {
    &&& 0 <= i < apps.len()
    &&& apps[i].0@ == name
    &&& forall|j: int| 0 <= j < i ==> (#[trigger] apps[j]).0@ != name
}

impl VersionFile {
    /// A record is well formed when its names are unique.
    pub open spec fn wf(&self) -> bool {
        names_distinct(self.apps@)
    }

    /// The place of the application called `name`.
    pub open spec fn spec_position(&self, name: Seq<char>) -> Option<int> {
        if has_name(self.apps@, name) {
            Some(choose|i: int| is_first_named(self.apps@, name, i))
        } else {
            None
        }
    }

    /// The version that the record declares for `name`.
    pub open spec fn spec_version(&self, name: Seq<char>) -> Option<Seq<char>> {
        match self.spec_position(name) {
            Some(i) => Some(self.apps@[i].1.version@),
            None => None,
        }
    }

    /// Builds a record from its entries. `None` where two of them share a
    /// name.
    pub fn from_entries(apps: Vec<(String, Application)>) -> (r: Option<VersionFile>)
        ensures
            match r {
                Some(file) => file.apps == apps && file.wf(),
                None => !names_distinct(apps@),
            },
    {
        let mut j: usize = 0;
        while j < apps.len()
            invariant
                j <= apps.len(),
                forall|a: int, b: int|
                    0 <= a < b < j ==> (#[trigger] apps@[a]).0@ != (#[trigger] apps@[b]).0@,
            decreases apps.len() - j,
        {
            let mut i: usize = 0;
            while i < j
                invariant
                    i <= j < apps.len(),
                    forall|a: int| 0 <= a < i ==> (#[trigger] apps@[a]).0@ != apps@[j as int].0@,
                decreases j - i,
            {
                if same_text(apps[i].0.as_str(), apps[j].0.as_str()) {
                    return None;
                }
                i = i + 1;
            }
            j = j + 1;
        }
        Some(VersionFile { apps })
    }

    /// Finds the application called `name`.
    pub fn position(&self, name: &str) -> (r: Option<usize>)
        ensures
            match r {
                Some(i) => self.spec_position(name@) == Some(i as int) && is_first_named(
                    self.apps@,
                    name@,
                    i as int,
                ),
                None => self.spec_position(name@) is None && !has_name(self.apps@, name@),
            },
    {
        let mut i: usize = 0;
        while i < self.apps.len()
            invariant
                i <= self.apps.len(),
                forall|j: int| 0 <= j < i ==> (#[trigger] self.apps@[j]).0@ != name@,
            decreases self.apps.len() - i,
        {
            if same_text(self.apps[i].0.as_str(), name) {
                proof {
                    let found = i as int;
                    assert(is_first_named(self.apps@, name@, found));
                    let chosen = choose|k: int| is_first_named(self.apps@, name@, k);
                    assert(is_first_named(self.apps@, name@, chosen));
                    assert(chosen == found);
                }
                return Some(i);
            }
            i = i + 1;
        }
        None
    }

    /// The application called `name`.
    pub fn get(&self, name: &str) -> (r: Option<&Application>)
        ensures
            match r {
                Some(app) => self.spec_position(name@) is Some && *app
                    == self.apps@[self.spec_position(name@)->0].1,
                None => self.spec_position(name@) is None,
            },
    {
        match self.position(name) {
            Some(i) => Some(&self.apps[i].1),
            None => None,
        }
    }

    /// The version that the record declares for `name`, or `None` where it
    /// holds no such application.
    pub fn read_version(&self, name: &str) -> (r: Option<&str>)
        ensures
            match r {
                Some(version) => self.spec_version(name@) == Some(version@),
                None => self.spec_version(name@) is None,
            },
    {
        match self.position(name) {
            Some(i) => Some(self.apps[i].1.version.as_str()),
            None => None,
        }
    }
}

/// Why the record could not be moved to a new version.
#[derive(Clone, Copy, PartialEq, Eq, Debug, Structural)]
pub enum UpdateError {
    /// The record is no TOML document.
    MalformedRecord,
    /// The record declares no version, as a string, for the application.
    MissingVersion,
    /// The parser gave no usable place for the declared version.
    Unlocated,
}

impl UpdateError {
    /// The kind of this failure: the record is malformed in each case.
    pub fn kind(self) -> (r: ErrorKind)
        ensures
            r == ErrorKind::Parse,
    {
        ErrorKind::Parse
    }
}

/// A record moved to a new version.
#[derive(Debug)]
pub struct Update {
    /// The new text of the record.
    pub text: String,
    /// The version that the record declared before.
    pub previous: String,
    /// The message of the commit that records the change, where one was
    /// asked for.
    pub message: Option<String>,
}

/// The mathematical value of an [`Update`].
pub struct UpdateView {
    pub text: Seq<char>,
    pub previous: Seq<char>,
    pub message: Option<Seq<char>>,
}

impl View for Update {
    type V = UpdateView;

    open spec fn view(&self) -> UpdateView {
        UpdateView {
            text: self.text@,
            previous: self.previous@,
            message: match self.message {
                Some(message) => Some(message@),
                None => None,
            },
        }
    }
}

/// The message of the commit that moves `app` from `previous` to `version`.
pub open spec fn message_for(app: Seq<char>, previous: Seq<char>, version: Seq<char>) -> Seq<
    char,
> {
    ":arrow_up: "@ + app + ": "@ + previous + " -> "@ + version
        + "\n\nThis commit was automatically created by Adelie <https://github.com/nikhiljha/adelie>."@
}

/// Writes the message of the commit that moves `app` from `previous` to
/// `version`.
pub fn commit_message(app: &str, previous: &str, version: &str) -> (r: String)
    ensures
        r@ == message_for(app@, previous@, version@),
{
    String::from_str(":arrow_up: ").concat(app).concat(": ").concat(previous).concat(
        " -> ",
    ).concat(version).concat(
        "\n\nThis commit was automatically created by Adelie <https://github.com/nikhiljha/adelie>.",
    )
}

/// The part of `source` that its first `offset` bytes write.
pub open spec fn text_before(source: Seq<char>, offset: int) -> Seq<char> {
    decode_utf8(encode_utf8(source).subrange(0, offset))
}

/// The part of `source` that its bytes from `offset` on write.
pub open spec fn text_after(source: Seq<char>, offset: int) -> Seq<char> {
    decode_utf8(encode_utf8(source).subrange(offset, encode_utf8(source).len() as int))
}

/// Whether the bytes from `start` to `end` are a piece of `source` that can
/// be cut out: both offsets fall between two characters.
pub open spec fn can_cut(source: Seq<char>, start: int, end: int) -> bool {
    &&& start <= end
    &&& is_char_boundary(encode_utf8(source), start)
    &&& is_char_boundary(encode_utf8(source), end)
}

/// `source` with the bytes from `start` to `end` replaced by `piece`.
/// Everything before and after stays as it is.
pub open spec fn replaced(source: Seq<char>, start: int, end: int, piece: Seq<char>) -> Seq<char> {
    text_before(source, start) + piece + text_after(source, end)
}

/// The version that a record declares for `app`: the `version` member of the
/// table called `app`.
pub open spec fn declared(root: TomlNode, app: Seq<char>) -> TomlNode {
    root.member(app).member("version"@)
}

/// What moving `app` to `version` makes of the record `source`. The record
/// is read anew from its text; the literal of the declared version, at the
/// place where the parser found it, is replaced by the literal of the new
/// one; nothing else changes.
pub open spec fn update_of(
    source: Seq<char>,
    app: Seq<char>,
    version: Seq<char>,
    commit: bool,
) -> Result<UpdateView, UpdateError> {
    match toml_parse(source) {
        None => Err(UpdateError::MalformedRecord),
        Some(root) => match declared(root, app) {
            TomlNode::Text { value, span } => match span {
                Some((start, end)) => if can_cut(source, start as int, end as int) {
                    Ok(
                        UpdateView {
                            text: replaced(
                                source,
                                start as int,
                                end as int,
                                toml_literal(version),
                            ),
                            previous: value,
                            message: if commit {
                                Some(message_for(app, value, version))
                            } else {
                                None
                            },
                        },
                    )
                } else {
                    Err(UpdateError::Unlocated)
                },
                None => Err(UpdateError::Unlocated),
            },
            _ => Err(UpdateError::MissingVersion),
        },
    }
}

/// A replacement changes one piece and nothing else: the source is what
/// stands before the piece, the piece, and what stands after it; the result
/// is the same but for the piece.
pub proof fn lemma_replacement_keeps_the_rest(
    source: Seq<char>,
    start: int,
    end: int,
    piece: Seq<char>,
)
    requires
        can_cut(source, start, end),
    ensures
        source == text_before(source, start) + decode_utf8(
            encode_utf8(source).subrange(start, end),
        ) + text_after(source, end),
        replaced(source, start, end, piece) == text_before(source, start) + piece + text_after(
            source,
            end,
        ),
{
    let bytes = encode_utf8(source);
    encode_utf8_valid_utf8(source);
    encode_utf8_decode_utf8(source);
    lemma_boundary_within(bytes, start, end);
    let head = bytes.subrange(0, start);
    let tail = bytes.subrange(start, bytes.len() as int);
    decode_utf8_split(bytes, start);
    valid_utf8_split(bytes, start);
    decode_utf8_split(tail, end - start);
    assert(tail.subrange(0, end - start) =~= bytes.subrange(start, end));
    assert(tail.subrange(end - start, tail.len() as int) =~= bytes.subrange(
        end,
        bytes.len() as int,
    ));
}

/// An update changes one value and nothing else. The record is what stands
/// before the literal of the declared version, that literal, and what
/// stands after it; the updated record is what stood before, the literal of
/// the new version, and what stood after. Comments, order and layout are in
/// the two parts that stay.
pub proof fn lemma_update_changes_one_value(
    source: Seq<char>,
    app: Seq<char>,
    version: Seq<char>,
    commit: bool,
)
    requires
        update_of(source, app, version, commit) is Ok,
    ensures
        ({
            let span = declared(toml_parse(source)->0, app)->span->0;
            let before = text_before(source, span.0 as int);
            let after = text_after(source, span.1 as int);
            &&& source == before + decode_utf8(
                encode_utf8(source).subrange(span.0 as int, span.1 as int),
            ) + after
            &&& update_of(source, app, version, commit)->Ok_0.text == before + toml_literal(
                version,
            ) + after
        }),
{
    let span = declared(toml_parse(source)->0, app)->span->0;
    lemma_replacement_keeps_the_rest(
        source,
        span.0 as int,
        span.1 as int,
        toml_literal(version),
    );
}

/// A character boundary of a text is one of its tail from an earlier
/// boundary on.
proof fn lemma_boundary_within(bytes: Seq<u8>, start: int, end: int)
    requires
        vstd::utf8::valid_utf8(bytes),
        start <= end,
        is_char_boundary(bytes, start),
        is_char_boundary(bytes, end),
    ensures
        0 <= start <= end <= bytes.len(),
        is_char_boundary(bytes.subrange(start, bytes.len() as int), end - start),
{
    assert(0 <= start <= bytes.len()) by {
        reveal_with_fuel(is_char_boundary, 2);
    }
    assert(0 <= end <= bytes.len()) by {
        reveal_with_fuel(is_char_boundary, 2);
    }
    let tail = bytes.subrange(start, bytes.len() as int);
    valid_utf8_split(bytes, start);
    if end == bytes.len() {
        is_char_boundary_start_end_of_seq(tail);
    } else {
        is_char_boundary_iff_not_is_continuation_byte(bytes, end);
        is_char_boundary_iff_not_is_continuation_byte(tail, end - start);
    }
}

/// Replaces the bytes of `source` from `start` to `end` by `piece`. `None`
/// where the two offsets do not cut `source` between characters.
pub fn replace_range(source: &str, start: usize, end: usize, piece: &str) -> (r: Option<String>)
    ensures
        match r {
            Some(text) => can_cut(source@, start as int, end as int) && text@ == replaced(
                source@,
                start as int,
                end as int,
                piece@,
            ),
            None => !can_cut(source@, start as int, end as int),
        },
{
    if start > end || !source.is_char_boundary(start) || !source.is_char_boundary(end) {
        return None;
    }
    proof {
        encode_utf8_valid_utf8(source@);
        lemma_boundary_within(source.spec_bytes(), start as int, end as int);
    }
    let (before, rest) = source.split_at(start);
    let (_, after) = rest.split_at(end - start);
    proof {
        let bytes = source.spec_bytes();
        encode_utf8_decode_utf8(before@);
        encode_utf8_decode_utf8(after@);
        assert(rest.spec_bytes().subrange(
            end - start,
            rest.spec_bytes().len() as int,
        ) =~= bytes.subrange(end as int, bytes.len() as int));
    }
    Some(String::from_str(before).concat(piece).concat(after))
}

/// Moves `app` to `version` in the record whose text is `source`, and
/// returns the new text of the record with the version it declared before.
/// With `commit`, the message for the commit that records the change comes
/// with it.
///
/// The text is parsed anew, so that comments, order and layout survive: only
/// the literal of the declared version is rewritten.
pub fn update_version(source: &str, app: &str, version: &str, commit: bool) -> (r: Result<
    Update,
    UpdateError,
>)
    ensures
        match r {
            Ok(update) => update_of(source@, app@, version@, commit) == Ok::<
                UpdateView,
                UpdateError,
            >(update@),
            Err(e) => update_of(source@, app@, version@, commit) == Err::<UpdateView, UpdateError>(
                e,
            ),
        },
{
    let root = match parse_toml(source) {
        Some(root) => root,
        None => {
            return Err(UpdateError::MalformedRecord);
        },
    };
    let table = match toml_member(&root, app) {
        Some(table) => table,
        None => {
            return Err(UpdateError::MissingVersion);
        },
    };
    let field = match toml_member(table, "version") {
        Some(field) => field,
        None => {
            return Err(UpdateError::MissingVersion);
        },
    };
    let previous = match toml_text(field) {
        Some(previous) => previous,
        None => {
            return Err(UpdateError::MissingVersion);
        },
    };
    let (start, end) = match toml_span(field) {
        Some(span) => span,
        None => {
            return Err(UpdateError::Unlocated);
        },
    };
    let literal = write_literal(version);
    let text = match replace_range(source, start, end, literal.as_str()) {
        Some(text) => text,
        None => {
            return Err(UpdateError::Unlocated);
        },
    };
    let message = if commit {
        Some(commit_message(app, previous, version))
    } else {
        None
    };
    Ok(Update { text, previous: String::from_str(previous), message })
}

} // verus!
