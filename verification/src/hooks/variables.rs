//! The variables that event-hook rules read: what a change, its event type and the file on
//! disk say, as values without floating point.

use vstd::prelude::*;

use crate::diff::preview::strings_view;
use crate::hooks::events::{event_name, EventType};
use crate::hooks::lifecycle::opt_text;
use crate::paths::{extension_chars, extension_spec, file_name, file_name_spec, file_stem, file_stem_spec};
use crate::shared::{ChangeDetail, ChangeDetailView, ChangeKind, FileChange, FileChangeView};
use crate::text::{chars_eq_str, chars_of, eq_str, is_digit, owned, starts_with, string_from_range};

verus! {

/// Whether a character can belong to a decimal number (a digit or a dot).
pub open spec fn is_numeric_char(c: char) -> bool {
    is_digit(c) || c == '.'
}

/// The first index at or after `i` that holds a numeric character, or the length.
pub open spec fn run_start(s: Seq<char>, i: nat) -> nat
    decreases s.len() - i,
{
    if i < s.len() && !is_numeric_char(s[i as int]) {
        run_start(s, i + 1)
    } else {
        i
    }
}

/// The first index at or after `i` that does not hold a numeric character, or the length.
pub open spec fn run_end(s: Seq<char>, i: nat) -> nat
    decreases s.len() - i,
{
    if i < s.len() && is_numeric_char(s[i as int]) {
        run_end(s, i + 1)
    } else {
        i
    }
}

/// The first maximal run of digits and dots in a text (empty when there is none).
pub open spec fn first_numeric_run(s: Seq<char>) -> Seq<char> {
    let start = run_start(s, 0);
    s.subrange(start as int, run_end(s, start) as int)
}

/// The number of dots in a text.
pub open spec fn dot_count(s: Seq<char>) -> nat
    decreases s.len(),
{
    if s.len() == 0 {
        0
    } else {
        dot_count(s.drop_last()) + if s.last() == '.' {
            1nat
        } else {
            0nat
        }
    }
}

/// Whether a run of digits and dots reads as a decimal number: at least one digit and at
/// most one dot (the forms `f64::from_str` accepts from such characters).
pub open spec fn is_decimal_run(run: Seq<char>) -> bool {
    dot_count(run) <= 1 && dot_count(run) < run.len()
}

/// The code of a character after ASCII lower-casing.
pub open spec fn lower_code(c: char) -> u32 {
    if 'A' <= c <= 'Z' {
        (c as u32 + 32) as u32
    } else {
        c as u32
    }
}

/// Whether `key` occurs in `s` at `i`, ignoring ASCII case in `s`.
pub open spec fn occurs_at_ci(s: Seq<char>, key: Seq<char>, i: int) -> bool {
    &&& 0 <= i
    &&& i + key.len() <= s.len()
    &&& forall|k: int| 0 <= k < key.len() ==> lower_code(#[trigger] s[i + k]) == key[k] as u32
}

/// Whether the ASCII lower-cased `s` contains `key`.
pub open spec fn contains_ci(s: Seq<char>, key: Seq<char>) -> bool {
    exists|i: int| occurs_at_ci(s, key, i)
}

/// The numeric text of the first metadata line that mentions `key` and carries a number.
pub open spec fn metadata_number_spec(lines: Seq<Seq<char>>, key: Seq<char>) -> Option<Seq<char>>
    decreases lines.len(),
{
    if lines.len() == 0 {
        None
    } else {
        let run = first_numeric_run(lines[0]);
        if contains_ci(lines[0], key) && is_decimal_run(run) {
            Some(run)
        } else {
            metadata_number_spec(lines.drop_first(), key)
        }
    }
}

fn is_numeric(c: char) -> (b: bool)
    ensures
        b == is_numeric_char(c),
{
    ('0' <= c && c <= '9') || c == '.'
}

fn lower_code_of(c: char) -> (code: u32)
    ensures
        code == lower_code(c),
{
    if 'A' <= c && c <= 'Z' {
        (c as u32) + 32
    } else {
        c as u32
    }
}

/// The first maximal run of digits and dots in a line.
fn numeric_run(v: &Vec<char>) -> (run: Vec<char>)
    ensures
        run@ == first_numeric_run(v@),
{
    let mut i: usize = 0;
    while i < v.len() && !is_numeric(v[i])
        invariant
            i <= v.len(),
            run_start(v@, 0) == run_start(v@, i as nat),
        decreases v.len() - i,
    {
        i = i + 1;
    }
    let start = i;
    while i < v.len() && is_numeric(v[i])
        invariant
            start <= i <= v.len(),
            run_start(v@, 0) == start,
            run_end(v@, start as nat) == run_end(v@, i as nat),
        decreases v.len() - i,
    {
        i = i + 1;
    }
    let mut run: Vec<char> = Vec::new();
    let mut j: usize = start;
    while j < i
        invariant
            start <= j <= i <= v.len(),
            run@ == v@.subrange(start as int, j as int),
        decreases i - j,
    {
        run.push(v[j]);
        assert(v@.subrange(start as int, j + 1) == v@.subrange(start as int, j as int).push(v@[j as int]));
        j = j + 1;
    }
    run
}

/// Whether a run of digits and dots reads as a decimal number.
fn decimal_run(run: &Vec<char>) -> (b: bool)
    ensures
        b == is_decimal_run(run@),
{
    let mut dots: usize = 0;
    let mut i: usize = 0;
    while i < run.len()
        invariant
            i <= run.len(),
            dots == dot_count(run@.take(i as int)),
            dots <= i,
        decreases run.len() - i,
    {
        assert(run@.take(i + 1).drop_last() == run@.take(i as int));
        if run[i] == '.' {
            dots = dots + 1;
        }
        i = i + 1;
    }
    assert(run@.take(run.len() as int) == run@);
    dots <= 1 && dots < run.len()
}

/// Whether the ASCII lower-cased line contains `key`.
fn line_contains_ci(v: &Vec<char>, key: &Vec<char>) -> (b: bool)
    ensures
        b == contains_ci(v@, key@),
{
    if key.len() > v.len() {
        assert forall|i: int| !occurs_at_ci(v@, key@, i) by {}
        return false;
    }
    let mut i: usize = 0;
    let last = v.len() - key.len();
    while i <= last
        invariant
            key.len() <= v.len(),
            last == v.len() - key.len(),
            i <= last + 1,
            forall|p: int| 0 <= p < i ==> !occurs_at_ci(v@, key@, p),
        decreases v.len() - i,
    {
        let mut k: usize = 0;
        let mut same = true;
        while k < key.len()
            invariant
                i + key.len() <= v.len(),
                k <= key.len(),
                same == (forall|q: int| 0 <= q < k ==> lower_code(#[trigger] v@[i + q]) == key@[q] as u32),
            decreases key.len() - k,
        {
            if lower_code_of(v[i + k]) != (key[k] as u32) {
                same = false;
            }
            k = k + 1;
        }
        if same {
            assert(occurs_at_ci(v@, key@, i as int));
            return true;
        }
        i = i + 1;
    }
    assert forall|p: int| !occurs_at_ci(v@, key@, p) by {
        if 0 <= p < i {
        }
    }
    false
}

/// The numeric text of the first metadata line that mentions `key` and carries a number.
pub fn metadata_number(lines: &Vec<String>, key: &str) -> (r: Option<String>)
    ensures
        r matches Some(t) ==> metadata_number_spec(strings_view(lines@), key@) == Some(t@),
        r is None ==> metadata_number_spec(strings_view(lines@), key@) is None,
{
    let ghost lv = strings_view(lines@);
    let key_chars = chars_of(key);
    let mut i: usize = 0;
    assert(lv.skip(0) == lv);
    while i < lines.len()
        invariant
            i <= lines.len(),
            lv == strings_view(lines@),
            key_chars@ == key@,
            metadata_number_spec(lv, key@) == metadata_number_spec(lv.skip(i as int), key@),
        decreases lines.len() - i,
    {
        let line = chars_of(lines[i].as_str());
        assert(lv.skip(i as int)[0] == line@);
        assert(lv.skip(i as int).drop_first() == lv.skip(i + 1));
        if line_contains_ci(&line, &key_chars) {
            let run = numeric_run(&line);
            if decimal_run(&run) {
                assert(run@.subrange(0, run.len() as int) == run@);
                return Some(string_from_range(&run, 0, run.len()));
            }
        }
        i = i + 1;
    }
    None
}

/// The value of a rule variable. Numbers stay exact here: counts, a signed size difference,
/// or the text of a decimal number; the evaluator reads them as floating point.
#[derive(Clone, Debug, PartialEq, Eq)]
pub enum VariableValue {
    /// No value (an unknown variable, or a media field that is absent).
    Null,
    /// A boolean.
    Bool(bool),
    /// A string.
    Text(String),
    /// A count or size.
    Count(u64),
    /// A signed size difference.
    Signed(i64),
    /// The text of a decimal number: digits with at most one dot.
    Decimal(String),
}

/// The view of a variable value.
pub enum VariableView {
    Null,
    Bool(bool),
    Text(Seq<char>),
    Count(u64),
    Signed(i64),
    Decimal(Seq<char>),
}

impl View for VariableValue {
    type V = VariableView;

    open spec fn view(&self) -> VariableView {
        match self {
            VariableValue::Null => VariableView::Null,
            VariableValue::Bool(b) => VariableView::Bool(*b),
            VariableValue::Text(t) => VariableView::Text(t@),
            VariableValue::Count(n) => VariableView::Count(*n),
            VariableValue::Signed(n) => VariableView::Signed(*n),
            VariableValue::Decimal(t) => VariableView::Decimal(t@),
        }
    }
}

/// A size clamped to the largest `i64`.
pub open spec fn clamp_size(n: u64) -> int {
    if n <= i64::MAX {
        n as int
    } else {
        i64::MAX as int
    }
}

/// The size difference of a change: current minus previous size of a binary detail with
/// both sizes, the size of a media detail, and zero otherwise (sizes clamped to `i64`).
pub open spec fn size_delta_spec(c: FileChangeView) -> int {
    match c.detail {
        Some(ChangeDetailView::Binary { previous_size: Some(p), current_size: Some(q), .. }) => clamp_size(q) - clamp_size(p),
        Some(ChangeDetailView::Media { size_bytes, .. }) => clamp_size(size_bytes),
        _ => 0,
    }
}

/// The MIME hint of a path by its extension (empty for extensions without one).
pub open spec fn mime_hint_spec(path: Seq<char>) -> Seq<char> {
    let ext = opt_text(extension_spec(path));
    if ext == "rs"@ {
        "text/rust"@
    } else if ext == "toml"@ {
        "text/toml"@
    } else if ext == "json"@ {
        "application/json"@
    } else if ext == "png"@ {
        "image/png"@
    } else if ext == "jpg"@ || ext == "jpeg"@ {
        "image/jpeg"@
    } else if ext == "webp"@ {
        "image/webp"@
    } else if ext == "mp4"@ {
        "video/mp4"@
    } else {
        ""@
    }
}

/// The number of preview lines that start with `mark`.
pub open spec fn count_prefixed(preview: Seq<Seq<char>>, mark: char) -> nat
    decreases preview.len(),
{
    if preview.len() == 0 {
        0
    } else {
        count_prefixed(preview.drop_last(), mark) + if starts_with(preview.last(), seq![mark]) {
            1nat
        } else {
            0nat
        }
    }
}

/// The preview lines of a change's text detail (none without one).
pub open spec fn text_preview(c: FileChangeView) -> Seq<Seq<char>> {
    match c.detail {
        Some(ChangeDetailView::Text { preview, .. }) => preview,
        _ => Seq::empty(),
    }
}

/// The media kind of a change's media detail.
pub open spec fn media_kind_spec(c: FileChangeView) -> Option<Seq<char>> {
    match c.detail {
        Some(ChangeDetailView::Media { kind, .. }) => Some(kind),
        _ => None,
    }
}

/// The metadata lines of a change's media detail.
pub open spec fn media_lines(c: FileChangeView) -> Option<Seq<Seq<char>>> {
    match c.detail {
        Some(ChangeDetailView::Media { metadata, .. }) => Some(metadata),
        _ => None,
    }
}

/// A media number of a change as a variable: the numeric text found under `key`, or null.
pub open spec fn media_number_value(c: FileChangeView, key: Seq<char>) -> VariableView {
    match media_lines(c) {
        Some(lines) => match metadata_number_spec(lines, key) {
            Some(t) => VariableView::Decimal(t),
            None => VariableView::Null,
        },
        None => VariableView::Null,
    }
}

/// The value of the rule variable `name` for a change seen as `event`, where the file on
/// disk has `file_size` bytes (zero when unreadable) and `file_exists` tells whether it exists.
pub open spec fn variable_spec(
    c: FileChangeView,
    event: EventType,
    file_size: u64,
    file_exists: bool,
    name: Seq<char>,
) -> VariableView {
    let added = count_prefixed(text_preview(c), '+');
    let removed = count_prefixed(text_preview(c), '-');
    if name == "event.kind"@ {
        VariableView::Text(event_name(event))
    } else if name == "event.path"@ || name == "event.new_path"@ {
        VariableView::Text(c.path)
    } else if name == "event.old_path"@ {
        VariableView::Text(opt_text(c.previous_path))
    } else if name == "event.is_file"@ {
        VariableView::Bool(!c.is_directory)
    } else if name == "event.is_folder"@ {
        VariableView::Bool(c.is_directory)
    } else if name == "file.name"@ {
        VariableView::Text(opt_text(file_name_spec(c.path)))
    } else if name == "file.stem"@ {
        VariableView::Text(opt_text(file_stem_spec(c.path)))
    } else if name == "file.ext"@ {
        VariableView::Text(opt_text(extension_spec(c.path)))
    } else if name == "file.size"@ {
        VariableView::Count(file_size)
    } else if name == "file.size_delta"@ {
        VariableView::Signed(size_delta_spec(c) as i64)
    } else if name == "file.exists"@ {
        VariableView::Bool(file_exists)
    } else if name == "file.is_binary"@ {
        VariableView::Bool(c.detail matches Some(ChangeDetailView::Binary { .. }))
    } else if name == "file.mime"@ {
        VariableView::Text(mime_hint_spec(c.path))
    } else if name == "diff.added_lines"@ {
        VariableView::Count(added as u64)
    } else if name == "diff.removed_lines"@ {
        VariableView::Count(removed as u64)
    } else if name == "diff.changed_lines"@ {
        VariableView::Count((added + removed) as u64)
    } else if name == "diff.total_lines"@ {
        VariableView::Count(text_preview(c).len() as u64)
    } else if name == "diff.has_inline_changes"@ {
        VariableView::Bool(c.detail matches Some(ChangeDetailView::Text { .. }))
    } else if name == "metadata.permissions_changed"@ || name == "metadata.owner_changed"@ {
        VariableView::Bool(false)
    } else if name == "metadata.modified_time_changed"@ {
        VariableView::Bool(c.kind == ChangeKind::Modified)
    } else if name == "metadata.size_changed"@ {
        VariableView::Bool(size_delta_spec(c) != 0)
    } else if name == "media.width"@ {
        media_number_value(c, "width"@)
    } else if name == "media.height"@ {
        media_number_value(c, "height"@)
    } else if name == "media.duration"@ {
        media_number_value(c, "duration"@)
    } else if name == "media.bitrate"@ {
        media_number_value(c, "bitrate"@)
    } else if name == "media.has_audio"@ {
        VariableView::Bool(media_kind_spec(c) == Some("audio"@) || media_kind_spec(c) == Some("video"@))
    } else if name == "media.has_video"@ {
        VariableView::Bool(media_kind_spec(c) == Some("video"@))
    } else {
        VariableView::Null
    }
}

fn clamp(n: u64) -> (r: i64)
    ensures
        r as int == clamp_size(n),
{
    if n <= i64::MAX as u64 {
        n as i64
    } else {
        i64::MAX
    }
}

/// The size difference of a change (see [`size_delta_spec`]).
pub fn size_delta(change: &FileChange) -> (d: i64)
    ensures
        d as int == size_delta_spec(change@),
{
    match &change.detail {
        Some(ChangeDetail::Binary { previous_size: Some(previous), current_size: Some(current), .. }) => {
            clamp(*current) - clamp(*previous)
        },
        Some(ChangeDetail::Media { size_bytes, .. }) => clamp(*size_bytes),
        _ => 0,
    }
}

/// The MIME hint of a path by its extension.
pub fn mime_hint(path: &str) -> (m: String)
    ensures
        m@ == mime_hint_spec(path@),
{
    let ext = match extension_chars(path) {
        Some(e) => e,
        None => Vec::new(),
    };
    assert(ext@ == opt_text(extension_spec(path@)));
    let hint = if chars_eq_str(&ext, "rs") {
        "text/rust"
    } else if chars_eq_str(&ext, "toml") {
        "text/toml"
    } else if chars_eq_str(&ext, "json") {
        "application/json"
    } else if chars_eq_str(&ext, "png") {
        "image/png"
    } else if chars_eq_str(&ext, "jpg") || chars_eq_str(&ext, "jpeg") {
        "image/jpeg"
    } else if chars_eq_str(&ext, "webp") {
        "image/webp"
    } else if chars_eq_str(&ext, "mp4") {
        "video/mp4"
    } else {
        ""
    };
    owned(hint)
}

fn starts_with_char(line: &String, mark: char) -> (b: bool)
    ensures
        b == starts_with(line@, seq![mark]),
{
    let c = chars_of(line.as_str());
    let b = c.len() >= 1 && c[0] == mark;
    assert(b == starts_with(c@, seq![mark])) by {
        if c.len() >= 1 {
            assert(c@.take(1) =~= seq![c@[0]]);
            assert(seq![mark][0] == mark);
            assert(c@.take(1)[0] == c@[0]);
        }
    }
    b
}

/// The numbers of preview lines that start with `+` and with `-`.
fn prefixed_counts(preview: &Vec<String>) -> (r: (usize, usize))
    ensures
        r.0 as nat == count_prefixed(strings_view(preview@), '+'),
        r.1 as nat == count_prefixed(strings_view(preview@), '-'),
        r.0 + r.1 <= preview.len(),
{
    let ghost pv = strings_view(preview@);
    let mut added: usize = 0;
    let mut removed: usize = 0;
    let mut i: usize = 0;
    while i < preview.len()
        invariant
            i <= preview.len(),
            pv == strings_view(preview@),
            added == count_prefixed(pv.take(i as int), '+'),
            removed == count_prefixed(pv.take(i as int), '-'),
            added + removed <= i,
        decreases preview.len() - i,
    {
        assert(pv.take(i + 1).drop_last() == pv.take(i as int));
        assert(pv[i as int] == preview@[i as int]@);
        let plus = starts_with_char(&preview[i], '+');
        let minus = starts_with_char(&preview[i], '-');
        assert(!(plus && minus)) by {
            if plus && minus {
                assert(pv[i as int].take(1)[0] == seq!['+'][0]);
                assert(pv[i as int].take(1)[0] == seq!['-'][0]);
            }
        }
        if plus {
            added = added + 1;
        }
        if minus {
            removed = removed + 1;
        }
        i = i + 1;
    }
    assert(pv.take(preview.len() as int) == pv);
    (added, removed)
}

/// What a rule reads of a change: the change, its event type, and the file's state on disk.
#[derive(Clone, Debug)]
pub struct RuleContext {
    /// The change under evaluation.
    pub change: FileChange,
    /// The event type it is evaluated as.
    pub event_type: EventType,
    /// Current size of the file in bytes (zero when it cannot be read).
    pub file_size: u64,
    /// Whether the file exists now.
    pub file_exists: bool,
}

impl RuleContext {
    /// Creates a rule context.
    pub fn new(change: FileChange, event_type: EventType, file_size: u64, file_exists: bool) -> (c: Self)
        ensures
            c.change == change,
            c.event_type == event_type,
            c.file_size == file_size,
            c.file_exists == file_exists,
    {
        RuleContext { change, event_type, file_size, file_exists }
    }

    fn media_number(&self, key: &str) -> (v: VariableValue)
        ensures
            v@ == media_number_value(self.change@, key@),
    {
        match &self.change.detail {
            Some(ChangeDetail::Media { metadata, .. }) => match metadata_number(metadata, key) {
                Some(t) => VariableValue::Decimal(t),
                None => VariableValue::Null,
            },
            _ => VariableValue::Null,
        }
    }

    fn media_kind_is(&self, kind: &str) -> (b: bool)
        ensures
            b == (media_kind_spec(self.change@) == Some(kind@)),
    {
        match &self.change.detail {
            Some(ChangeDetail::Media { kind: k, .. }) => eq_str(k.as_str(), kind),
            _ => false,
        }
    }

    /// The value of the rule variable `name`; unknown names give null.
    pub fn variable(&self, name: &str) -> (v: VariableValue)
        ensures
            v@ == variable_spec(self.change@, self.event_type, self.file_size, self.file_exists, name@),
    {
        let c = &self.change;
        let (added, removed) = match &c.detail {
            Some(ChangeDetail::Text { preview, .. }) => prefixed_counts(preview),
            _ => (0, 0),
        };
        let total: usize = match &c.detail {
            Some(ChangeDetail::Text { preview, .. }) => preview.len(),
            _ => 0,
        };
        if eq_str(name, "event.kind") {
            VariableValue::Text(owned(self.event_type.as_str()))
        } else if eq_str(name, "event.path") || eq_str(name, "event.new_path") {
            VariableValue::Text(c.path.clone())
        } else if eq_str(name, "event.old_path") {
            VariableValue::Text(match &c.previous_path {
                Some(p) => p.clone(),
                None => String::new(),
            })
        } else if eq_str(name, "event.is_file") {
            VariableValue::Bool(!c.is_directory)
        } else if eq_str(name, "event.is_folder") {
            VariableValue::Bool(c.is_directory)
        } else if eq_str(name, "file.name") {
            VariableValue::Text(match file_name(c.path.as_str()) {
                Some(n) => n,
                None => String::new(),
            })
        } else if eq_str(name, "file.stem") {
            VariableValue::Text(match file_stem(c.path.as_str()) {
                Some(n) => n,
                None => String::new(),
            })
        } else if eq_str(name, "file.ext") {
            VariableValue::Text(match crate::paths::extension(c.path.as_str()) {
                Some(n) => n,
                None => String::new(),
            })
        } else if eq_str(name, "file.size") {
            VariableValue::Count(self.file_size)
        } else if eq_str(name, "file.size_delta") {
            VariableValue::Signed(size_delta(c))
        } else if eq_str(name, "file.exists") {
            VariableValue::Bool(self.file_exists)
        } else if eq_str(name, "file.is_binary") {
            VariableValue::Bool(match &c.detail {
                Some(ChangeDetail::Binary { .. }) => true,
                _ => false,
            })
        } else if eq_str(name, "file.mime") {
            VariableValue::Text(mime_hint(c.path.as_str()))
        } else if eq_str(name, "diff.added_lines") {
            VariableValue::Count(added as u64)
        } else if eq_str(name, "diff.removed_lines") {
            VariableValue::Count(removed as u64)
        } else if eq_str(name, "diff.changed_lines") {
            VariableValue::Count((added + removed) as u64)
        } else if eq_str(name, "diff.total_lines") {
            VariableValue::Count(total as u64)
        } else if eq_str(name, "diff.has_inline_changes") {
            VariableValue::Bool(match &c.detail {
                Some(ChangeDetail::Text { .. }) => true,
                _ => false,
            })
        } else if eq_str(name, "metadata.permissions_changed") || eq_str(name, "metadata.owner_changed") {
            VariableValue::Bool(false)
        } else if eq_str(name, "metadata.modified_time_changed") {
            VariableValue::Bool(match c.kind {
                ChangeKind::Modified => true,
                _ => false,
            })
        } else if eq_str(name, "metadata.size_changed") {
            VariableValue::Bool(size_delta(c) != 0)
        } else if eq_str(name, "media.width") {
            self.media_number("width")
        } else if eq_str(name, "media.height") {
            self.media_number("height")
        } else if eq_str(name, "media.duration") {
            self.media_number("duration")
        } else if eq_str(name, "media.bitrate") {
            self.media_number("bitrate")
        } else if eq_str(name, "media.has_audio") {
            VariableValue::Bool(self.media_kind_is("audio") || self.media_kind_is("video"))
        } else if eq_str(name, "media.has_video") {
            VariableValue::Bool(self.media_kind_is("video"))
        } else {
            VariableValue::Null
        }
    }
}

} // verus!
