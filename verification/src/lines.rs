//! The lines of a settings file, and what loading them does to a store.
//!
//! A source holds, beside each line, the reading of its value text as a real
//! number, so that loading is a function of the source and the store alone.
use crate::settings::Field;
use crate::settings::index_of;
use crate::settings::keys_of;
use crate::settings::lemma_index_of_first;
use crate::settings::SettingValue;
use crate::text::decimal;
use crate::text::field_line;
use crate::text::field_of;
use crate::text::is_plain;
use crate::text::is_separator;
use crate::text::lemma_decimal_plain;
use crate::text::lemma_decimal_roundtrip;
use crate::text::lemma_field_line_roundtrip;
use crate::text::parse_unsigned;
use crate::text::split_field;
use crate::text::trim;
use vstd::prelude::*;
use vstd::string::*;

verus! {

/// Why a settings text was refused. `line` counts the lines of the source
/// from zero.
#[derive(Clone, Copy, Debug, PartialEq, Eq, Structural)]
pub enum ConfigParseError {
    /// The line is neither a field nor the line that closes a record.
    MalformedLine { line: usize },
    /// The line names a field that the store does not have.
    UnknownKey { line: usize },
    /// The value text is not a value of the field's kind.
    InvalidValue { line: usize },
}

/// What one line does to the fields of a store.
pub enum LineEffect {
    /// The line closes the record.
    Closes,
    /// The line sets a field; these are the fields afterwards.
    Stores(Seq<Field>),
    Malformed,
    UnknownKey,
    InvalidValue,
}

/// What `line` does to `fields`, where `reading` is the reading of its value
/// text as a real number. A field line sets the field it names to the value
/// it holds, read by the kind of the value that is there; a real value keeps
/// its scale.
pub open spec fn line_effect(fields: Seq<Field>, line: Seq<char>, reading: Option<u32>) -> LineEffect {
    match field_of(line) {
        None => if is_separator(line) {
            LineEffect::Closes
        } else {
            LineEffect::Malformed
        },
        Some(pair) => match index_of(keys_of(fields), pair.0) {
            None => LineEffect::UnknownKey,
            Some(index) => match fields[index].value {
                SettingValue::U32(_) => match parse_unsigned(pair.1) {
                    Some(n) => LineEffect::Stores(
                        fields.update(index, Field { key: pair.0, value: SettingValue::U32(n) }),
                    ),
                    None => LineEffect::InvalidValue,
                },
                SettingValue::F32(_, scale) => match reading {
                    Some(bits) => LineEffect::Stores(
                        fields.update(
                            index,
                            Field { key: pair.0, value: SettingValue::F32(bits, scale) },
                        ),
                    ),
                    None => LineEffect::InvalidValue,
                },
            },
        },
    }
}

/// The reading at `index`, `None` beyond the end.
pub open spec fn real_at(reals: Seq<Option<u32>>, index: int) -> Option<u32> {
    if 0 <= index < reals.len() {
        reals[index]
    } else {
        None
    }
}

/// The state in which loading one record ends.
pub struct Loaded {
    /// The fields of the store.
    pub fields: Seq<Field>,
    /// The position of the source.
    pub next: int,
    /// The number of fields read and whether the record was closed by a
    /// line, or the error.
    pub result: Result<(usize, bool), ConfigParseError>,
}

/// Loading one record from position `next`, with `count` fields read so far.
/// Lines are applied in order up to and including the line that closes the
/// record or the first line that is refused; a refused line leaves the fields
/// as the lines before it made them.
pub open spec fn load_from(
    fields: Seq<Field>,
    lines: Seq<Seq<char>>,
    reals: Seq<Option<u32>>,
    next: int,
    count: int,
) -> Loaded
    decreases lines.len() - next,
{
    if next < 0 || next >= lines.len() {
        Loaded { fields, next, result: Ok((count as usize, false)) }
    } else {
        match line_effect(fields, lines[next], real_at(reals, next)) {
            LineEffect::Closes => Loaded { fields, next: next + 1, result: Ok((count as usize, true)) },
            LineEffect::Stores(updated) => load_from(updated, lines, reals, next + 1, count + 1),
            LineEffect::Malformed => Loaded {
                fields,
                next: next + 1,
                result: Err(ConfigParseError::MalformedLine { line: next as usize }),
            },
            LineEffect::UnknownKey => Loaded {
                fields,
                next: next + 1,
                result: Err(ConfigParseError::UnknownKey { line: next as usize }),
            },
            LineEffect::InvalidValue => Loaded {
                fields,
                next: next + 1,
                result: Err(ConfigParseError::InvalidValue { line: next as usize }),
            },
        }
    }
}

/// Whether `text` is a text of `value` that is read back as `value`: the
/// decimal text of a whole number; for a real number, a plain text whose
/// reading is `reading` and gives its bits.
pub open spec fn reads_back(value: SettingValue, text: Seq<char>, reading: Option<u32>) -> bool {
    match value {
        SettingValue::U32(n) => text == decimal(n as nat),
        SettingValue::F32(bits, _) => is_plain(text) && reading == Some(bits),
    }
}

/// Whether `lines` are the lines that `fields` are saved as, with `texts` as
/// the value texts, each of which is read back as its value.
pub open spec fn is_saved(
    fields: Seq<Field>,
    texts: Seq<Seq<char>>,
    lines: Seq<Seq<char>>,
    reals: Seq<Option<u32>>,
) -> bool {
    &&& texts.len() == fields.len()
    &&& lines.len() == fields.len()
    &&& reals.len() == fields.len()
    &&& forall|i: int|
        0 <= i < fields.len() ==> #[trigger] lines[i] == field_line(fields[i].key, texts[i])
            && reads_back(fields[i].value, texts[i], reals[i])
}

/// Loading what was saved changes nothing: a store whose names are unique
/// and free of white space at both ends, loaded from its own saved lines,
/// reads every line and ends with the fields it had. The texts of its real
/// numbers must be plain and read back as the same bits.
pub proof fn lemma_save_load_roundtrip(
    fields: Seq<Field>,
    texts: Seq<Seq<char>>,
    lines: Seq<Seq<char>>,
    reals: Seq<Option<u32>>,
)
    requires
        keys_of(fields).no_duplicates(),
        forall|i: int| 0 <= i < fields.len() ==> trim(#[trigger] fields[i].key) == fields[i].key,
        is_saved(fields, texts, lines, reals),
        fields.len() <= usize::MAX,
    ensures
        load_from(fields, lines, reals, 0, 0) == (Loaded {
            fields,
            next: fields.len() as int,
            result: Ok((fields.len() as usize, false)),
        }),
{
    lemma_load_saved_from(fields, texts, lines, reals, 0);
}

/// The round trip from line `next` on.
proof fn lemma_load_saved_from(
    fields: Seq<Field>,
    texts: Seq<Seq<char>>,
    lines: Seq<Seq<char>>,
    reals: Seq<Option<u32>>,
    next: int,
)
    requires
        keys_of(fields).no_duplicates(),
        forall|i: int| 0 <= i < fields.len() ==> trim(#[trigger] fields[i].key) == fields[i].key,
        is_saved(fields, texts, lines, reals),
        0 <= next <= fields.len(),
    ensures
        load_from(fields, lines, reals, next, next) == (Loaded {
            fields,
            next: fields.len() as int,
            result: Ok((fields.len() as usize, false)),
        }),
    decreases fields.len() - next,
{
    if next < fields.len() {
        let field = fields[next];
        let text = texts[next];
        assert(lines[next] == field_line(field.key, text));
        assert(reads_back(field.value, text, reals[next]));
        match field.value {
            SettingValue::U32(n) => {
                lemma_decimal_plain(n as nat);
                lemma_decimal_roundtrip(n);
            },
            SettingValue::F32(_, _) => {},
        }
        lemma_field_line_roundtrip(field.key, text);
        assert(keys_of(fields)[next] == field.key);
        assert forall|j: int| 0 <= j < next implies keys_of(fields)[j] != field.key by {}
        lemma_index_of_first(keys_of(fields), field.key, next);
        assert(fields.update(next, field) == fields);
        assert(line_effect(fields, lines[next], real_at(reals, next)) == LineEffect::Stores(fields));
        lemma_load_saved_from(fields, texts, lines, reals, next + 1);
    }
}

/// Whether `reading` is a reading of the value text of `line`: what `read_real`
/// gives for it where the line is a field, `None` where it is not.
pub open spec fn is_reading<P: Fn(&str) -> Option<u32>>(
    read_real: P,
    line: Seq<char>,
    reading: Option<u32>,
) -> bool {
    match field_of(line) {
        Some(pair) => exists|text: &str|
            #[trigger] call_ensures(read_real, (text,), reading) && text@ == pair.1,
        None => reading is None,
    }
}

/// The model of a [`LineSource`].
pub struct LineSourceView {
    /// The lines.
    pub lines: Seq<Seq<char>>,
    /// The reading of each line's value text as a real number.
    pub reals: Seq<Option<u32>>,
    /// The position of the line that is read next.
    pub next: int,
}

/// The lines of a settings file, read one after the other.
#[derive(Debug)]
pub struct LineSource {
    lines: Vec<String>,
    reals: Vec<Option<u32>>,
    next: usize,
}

impl View for LineSource {
    type V = LineSourceView;

    closed spec fn view(&self) -> LineSourceView {
        LineSourceView {
            lines: Seq::new(self.lines.len() as nat, |i: int| self.lines[i]@),
            reals: self.reals@,
            next: self.next as int,
        }
    }
}

impl LineSource {
    /// A source at its first line. `read_real` reads a value text as a real
    /// number and gives its bits; it is called once for each field line.
    pub fn new<P: Fn(&str) -> Option<u32>>(lines: Vec<String>, read_real: P) -> (source: LineSource)
        requires
            forall|text: &str| call_requires(read_real, (text,)),
        ensures
            source@.next == 0,
            source@.lines.len() == lines.len(),
            source@.reals.len() == lines.len(),
            forall|i: int| 0 <= i < lines.len() ==> #[trigger] source@.lines[i] == lines[i]@,
            forall|i: int|
                0 <= i < lines.len() ==> is_reading(
                    read_real,
                    source@.lines[i],
                    #[trigger] source@.reals[i],
                ),
    {
        let mut reals: Vec<Option<u32>> = Vec::new();
        let mut index: usize = 0;
        while index < lines.len()
            invariant
                index <= lines.len(),
                reals.len() == index,
                forall|text: &str| call_requires(read_real, (text,)),
                forall|i: int|
                    0 <= i < index ==> is_reading(read_real, lines[i]@, #[trigger] reals[i]),
            decreases lines.len() - index,
        {
            let reading = match split_field(lines[index].as_str()) {
                Some(pair) => read_real(pair.1.as_str()),
                None => None,
            };
            reals.push(reading);
            index = index + 1;
        }
        LineSource { lines, reals, next: 0 }
    }

    /// The position counts lines.
    pub proof fn lemma_position(&self)
        ensures
            0 <= self@.next <= usize::MAX,
    {
    }

    /// The number of lines that were read.
    pub fn position(&self) -> (next: usize)
        ensures
            next == self@.next,
    {
        self.next
    }

    /// The line that is read next; `None` at the end.
    pub fn current(&self) -> (line: Option<&str>)
        ensures
            match line {
                Some(text) => 0 <= self@.next < self@.lines.len() && text@ == self@.lines[self@.next],
                None => self@.next >= self@.lines.len(),
            },
    {
        if self.next < self.lines.len() {
            Some(self.lines[self.next].as_str())
        } else {
            None
        }
    }

    /// The reading of the next line's value text as a real number.
    pub fn current_real(&self) -> (reading: Option<u32>)
        ensures
            reading == real_at(self@.reals, self@.next),
    {
        if self.next < self.reals.len() {
            self.reals[self.next]
        } else {
            None
        }
    }

    /// Moves past the next line; at the end the source stays where it is.
    pub fn advance(&mut self)
        ensures
            final(self)@.lines == old(self)@.lines,
            final(self)@.reals == old(self)@.reals,
            final(self)@.next == if old(self)@.next < old(self)@.lines.len() {
                old(self)@.next + 1
            } else {
                old(self)@.next
            },
            0 <= final(self)@.next <= usize::MAX,
    {
        if self.next < self.lines.len() {
            self.next = self.next + 1;
        }
        proof {
            assert(self@.lines =~= old(self)@.lines);
        }
    }
}

} // verus!
