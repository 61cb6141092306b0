//! The settings store: named values, the set of locked names and the
//! rebuild request.
use crate::default_settings::default_for;
use crate::default_settings::default_is_const;
use crate::default_settings::default_key;
use crate::default_settings::default_keys;
use crate::default_settings::default_value;
use crate::default_settings::FIELD_COUNT;
use crate::default_settings::keys;
use crate::default_settings::lemma_default_keys_distinct;
use crate::default_settings::make_defaults;
use crate::default_settings::nth;
use crate::default_settings::nth_is_const;
use crate::default_settings::nth_value;
use crate::lines::ConfigParseError;
use crate::lines::LineSource;
use crate::lines::load_from;
use crate::text::closes_record;
use crate::text::decimal;
use crate::text::field_line;
use crate::text::format_u32;
use crate::text::parse_u32;
use crate::text::separator;
use crate::text::split_field;
use vstd::bytes::spec_u32_to_le_bytes;
use vstd::bytes::u32_to_le_bytes;
use vstd::prelude::*;
use vstd::std_specs::cmp::PartialEqSpecImpl;
use vstd::string::*;

verus! {

/// The value of one setting. `U32` holds a whole number. `F32` holds a real
/// number and the step scale that goes with it, each as the bit pattern of an
/// IEEE-754 single-precision number.
#[derive(Clone, Copy, Debug, PartialEq, Eq, Structural)]
pub enum SettingValue {
    U32(u32),
    F32(u32, u32),
}

impl SettingValue {
    /// Whether the value is a real number.
    pub open spec fn is_real(self) -> bool {
        self is F32
    }

    /// The number the value holds: the whole number, or the bits of the real
    /// one.
    pub open spec fn number(self) -> u32 {
        match self {
            SettingValue::U32(n) => n,
            SettingValue::F32(bits, _) => bits,
        }
    }

    /// The value with its number replaced; a real value keeps its scale.
    pub open spec fn with_number(self, number: u32) -> SettingValue {
        match self {
            SettingValue::U32(_) => SettingValue::U32(number),
            SettingValue::F32(_, scale) => SettingValue::F32(number, scale),
        }
    }
}

/// One named value of a store.
#[derive(Clone, Debug)]
pub struct Entry {
    pub key: String,
    pub value: SettingValue,
}

/// The model of an [`Entry`].
pub struct Field {
    pub key: Seq<char>,
    pub value: SettingValue,
}

/// The position of the first occurrence of `key` in `keys`.
pub open spec fn index_of(keys: Seq<Seq<char>>, key: Seq<char>) -> Option<int>
    decreases keys.len(),
{
    if keys.len() == 0 {
        None
    } else {
        match index_of(keys.drop_last(), key) {
            Some(index) => Some(index),
            None => if keys.last() == key {
                Some(keys.len() - 1)
            } else {
                None
            },
        }
    }
}

/// What `index_of` returns is the first position that holds the key.
pub proof fn lemma_index_of(keys: Seq<Seq<char>>, key: Seq<char>)
    ensures
        match index_of(keys, key) {
            Some(index) => {
                &&& 0 <= index < keys.len()
                &&& keys[index] == key
                &&& forall|j: int| 0 <= j < index ==> keys[j] != key
            },
            None => forall|j: int| 0 <= j < keys.len() ==> keys[j] != key,
        },
    decreases keys.len(),
{
    if keys.len() > 0 {
        let front = keys.drop_last();
        lemma_index_of(front, key);
        assert forall|j: int| 0 <= j < front.len() implies front[j] == keys[j] by {}
    }
}

/// The first position that holds the key is what `index_of` returns.
pub proof fn lemma_index_of_first(keys: Seq<Seq<char>>, key: Seq<char>, index: int)
    requires
        0 <= index < keys.len(),
        keys[index] == key,
        forall|j: int| 0 <= j < index ==> keys[j] != key,
    ensures
        index_of(keys, key) == Some(index),
{
    lemma_index_of(keys, key);
}

/// A key that occurs nowhere has no position.
pub proof fn lemma_index_of_none(keys: Seq<Seq<char>>, key: Seq<char>)
    requires
        forall|j: int| 0 <= j < keys.len() ==> keys[j] != key,
    ensures
        index_of(keys, key) is None,
{
    lemma_index_of(keys, key);
}

/// The names of `fields`, in order.
pub open spec fn keys_of(fields: Seq<Field>) -> Seq<Seq<char>> {
    Seq::new(fields.len(), |i: int| fields[i].key)
}

/// The model of a [`Settings`] store.
pub struct SettingsView {
    /// The named values, in the order in which they are listed.
    pub fields: Seq<Field>,
    /// The locked names.
    pub constants: Set<Seq<char>>,
    /// Whether a rebuild of the kernel has been asked for.
    pub rebuild: bool,
}

impl SettingsView {
    /// The names, in order.
    pub open spec fn keys(self) -> Seq<Seq<char>> {
        keys_of(self.fields)
    }

    /// The position of `key`.
    pub open spec fn position(self, key: Seq<char>) -> Option<int> {
        index_of(self.keys(), key)
    }

    /// The value stored under `key`.
    pub open spec fn get(self, key: Seq<char>) -> Option<SettingValue> {
        match self.position(key) {
            Some(index) => Some(self.fields[index].value),
            None => None,
        }
    }

    /// The store as a mapping from names to values.
    pub open spec fn value_map(self) -> Map<Seq<char>, SettingValue> {
        Map::new(|key: Seq<char>| self.get(key) is Some, |key: Seq<char>| self.get(key)->0)
    }

    /// The fields after `value` is stored under `key`: in place where the key
    /// is present, at the end where it is new.
    pub open spec fn inserted(self, key: Seq<char>, value: SettingValue) -> Seq<Field> {
        match self.position(key) {
            Some(index) => self.fields.update(index, Field { key, value }),
            None => self.fields.push(Field { key, value }),
        }
    }

    /// A store is well formed when no name occurs twice and the names of the
    /// table come first, in the table's order.
    pub open spec fn wf(self) -> bool {
        &&& self.keys().no_duplicates()
        &&& self.fields.len() >= FIELD_COUNT
        &&& forall|i: int| 0 <= i < FIELD_COUNT ==> (#[trigger] self.fields[i]).key == default_key(i)
    }
}

/// The fields of a new store: those of the table.
pub open spec fn default_fields() -> Seq<Field> {
    Seq::new(FIELD_COUNT as nat, |i: int| Field { key: default_key(i), value: default_value(i) })
}

/// The names that a new store has locked.
pub open spec fn default_constants() -> Set<Seq<char>> {
    Set::new(|key: Seq<char>| locked_in_table(key, FIELD_COUNT as int))
}

/// Whether one of the first `count` fields of the table is named `key` and
/// starts out locked.
pub open spec fn locked_in_table(key: Seq<char>, count: int) -> bool {
    exists|i: int| 0 <= i < count && #[trigger] default_is_const(i) && default_key(i) == key
}

/// Whether one of `names` is `key`.
pub open spec fn holds_key(names: Seq<String>, key: Seq<char>) -> bool {
    exists|j: int| 0 <= j < names.len() && (#[trigger] names[j])@ == key
}

/// Whether `text` is a text of `value`: the decimal text of a whole number,
/// or a text that `show_real` gives for the bits of a real one.
pub open spec fn is_value_text<F: Fn(u32) -> String>(
    show_real: F,
    value: SettingValue,
    text: Seq<char>,
) -> bool {
    match value {
        SettingValue::U32(n) => text == decimal(n as nat),
        SettingValue::F32(bits, _) => exists|shown: String|
            call_ensures(show_real, (bits,), shown) && shown@ == text,
    }
}

/// Whether `line` is a line of `field`: its key, ` = ` and a text of its
/// value.
pub open spec fn is_field_line<F: Fn(u32) -> String>(
    show_real: F,
    field: Field,
    line: Seq<char>,
) -> bool {
    exists|text: Seq<char>| #[trigger]
        is_value_text(show_real, field.value, text) && line == field_line(field.key, text)
}

/// One row of the status listing: the selection mark, the lock mark, the
/// field line and a line feed.
pub open spec fn status_row(selected: bool, locked: bool, key: Seq<char>, text: Seq<char>) -> Seq<
    char,
> {
    seq![if selected { '*' } else { ' ' }, if locked { '@' } else { ' ' }] + field_line(key, text)
        + seq!['\n']
}

/// Whether `row` is the status row of the field at `index`.
pub open spec fn is_status_row<F: Fn(u32) -> String>(
    show_real: F,
    view: SettingsView,
    highlighted: int,
    index: int,
    row: Seq<char>,
) -> bool {
    exists|text: Seq<char>| #[trigger]
        is_value_text(show_real, view.fields[index].value, text) && row == status_row(
            index == highlighted,
            view.constants.contains(view.fields[index].key),
            view.fields[index].key,
            text,
        )
}

/// The rows one after the other.
pub open spec fn joined(rows: Seq<Seq<char>>) -> Seq<char>
    decreases rows.len(),
{
    if rows.len() == 0 {
        Seq::<char>::empty()
    } else {
        joined(rows.drop_last()) + rows.last()
    }
}

/// Whether `listing` is the status rows of the fields of the table, in the
/// table's order.
pub open spec fn is_status<F: Fn(u32) -> String>(
    show_real: F,
    view: SettingsView,
    highlighted: int,
    listing: Seq<char>,
) -> bool {
    exists|rows: Seq<Seq<char>>|
        {
            &&& #[trigger] joined(rows) == listing
            &&& rows.len() == FIELD_COUNT
            &&& forall|i: int|
                0 <= i < FIELD_COUNT ==> is_status_row(
                    show_real,
                    view,
                    highlighted,
                    i,
                    #[trigger] rows[i],
                )
        }
}

/// The numbers of the first `count` fields, four bytes each, low byte first.
pub open spec fn serialized(fields: Seq<Field>, count: int) -> Seq<u8>
    decreases count,
{
    if count <= 0 {
        Seq::<u8>::empty()
    } else {
        serialized(fields, count - 1) + spec_u32_to_le_bytes(fields[count - 1].value.number())
    }
}

/// A text of `value`.
fn value_text<F: Fn(u32) -> String>(value: SettingValue, show_real: &F) -> (text: String)
    requires
        forall|bits: u32| call_requires(*show_real, (bits,)),
    ensures
        is_value_text(*show_real, value, text@),
{
    match value {
        SettingValue::U32(n) => format_u32(n),
        SettingValue::F32(bits, _) => show_real(bits),
    }
}

/// A settings store.
#[derive(Debug)]
pub struct Settings {
    entries: Vec<Entry>,
    constants: Vec<String>,
    rebuild: bool,
}

impl View for Settings {
    type V = SettingsView;

    closed spec fn view(&self) -> SettingsView {
        SettingsView {
            fields: Seq::new(
                self.entries.len() as nat,
                |i: int| Field { key: self.entries[i].key@, value: self.entries[i].value },
            ),
            constants: Set::new(|key: Seq<char>| holds_key(self.constants@, key)),
            rebuild: self.rebuild,
        }
    }
}

impl Settings {
    /// Whether the store is well formed.
    pub open spec fn wf(&self) -> bool {
        self@.wf()
    }

    /// A store with the fields and the locks of the table, and no rebuild
    /// asked for.
    pub fn new() -> (store: Settings)
        ensures
            store.wf(),
            store@.fields == default_fields(),
            store@.constants == default_constants(),
            !store@.rebuild,
    {
        let (entries, constants) = make_defaults();
        let store = Settings { entries, constants, rebuild: false };
        proof {
            assert(store@.fields =~= default_fields());
            assert(store@.keys() =~= default_keys());
            lemma_default_keys_distinct();
            assert(store@.constants =~= default_constants());
        }
        store
    }

    /// The position of `key` among the entries.
    fn find(&self, key: &str) -> (found: Option<usize>)
        ensures
            match found {
                Some(index) => self@.position(key@) == Some(index as int) && index < self@.fields.len(),
                None => self@.position(key@) is None,
            },
    {
        let wanted = key.to_owned();
        let mut index: usize = 0;
        while index < self.entries.len()
            invariant
                index <= self.entries.len(),
                wanted@ == key@,
                forall|j: int| 0 <= j < index ==> self@.keys()[j] != key@,
            decreases self.entries.len() - index,
        {
            if self.entries[index].key == wanted {
                proof {
                    lemma_index_of_first(self@.keys(), key@, index as int);
                }
                return Some(index);
            }
            index = index + 1;
        }
        proof {
            lemma_index_of_none(self@.keys(), key@);
        }
        None
    }

    /// The value stored under `key`; `None` for an unknown key.
    pub fn get(&self, key: &str) -> (value: Option<&SettingValue>)
        ensures
            match value {
                Some(v) => self@.get(key@) == Some(*v),
                None => self@.get(key@) is None,
            },
    {
        match self.find(key) {
            Some(index) => Some(&self.entries[index].value),
            None => None,
        }
    }

    /// The entries, in the order in which they are listed.
    pub fn value_map(&self) -> (entries: &Vec<Entry>)
        ensures
            entries.len() == self@.fields.len(),
            forall|i: int|
                0 <= i < entries.len() ==> (#[trigger] entries[i]).key@ == self@.fields[i].key
                    && entries[i].value == self@.fields[i].value,
    {
        &self.entries
    }

    /// The locked names.
    pub fn constants(&self) -> (names: &Vec<String>)
        ensures
            forall|key: Seq<char>| holds_key(names@, key) == self@.constants.contains(key),
    {
        &self.constants
    }

    /// Unlocks every name.
    pub fn clear_constants(&mut self)
        ensures
            final(self)@.constants == Set::<Seq<char>>::empty(),
            final(self)@.fields == old(self)@.fields,
            final(self)@.rebuild == old(self)@.rebuild,
    {
        self.constants = Vec::new();
        proof {
            assert(self@.fields =~= old(self)@.fields);
            assert(self@.constants =~= Set::<Seq<char>>::empty());
        }
    }

    /// Locks the name of every field of the store.
    pub fn all_constants(&mut self)
        ensures
            final(self)@.constants == Set::new(
                |key: Seq<char>| old(self)@.constants.contains(key) || old(self)@.get(key) is Some,
            ),
            final(self)@.fields == old(self)@.fields,
            final(self)@.rebuild == old(self)@.rebuild,
    {
        let mut index: usize = 0;
        while index < self.entries.len()
            invariant
                index <= self.entries.len(),
                self@.fields == old(self)@.fields,
                self@.rebuild == old(self)@.rebuild,
                forall|key: Seq<char>|
                    self@.constants.contains(key) <==> (old(self)@.constants.contains(key)
                        || exists|j: int| 0 <= j < index && #[trigger] self@.keys()[j] == key),
            decreases self.entries.len() - index,
        {
            let ghost before = *self;
            let name = self.entries[index].key.clone();
            self.lock(name);
            proof {
                assert(self@.fields =~= before@.fields);
                assert forall|key: Seq<char>|
                    self@.constants.contains(key) <==> (old(self)@.constants.contains(key)
                        || exists|j: int| 0 <= j < index + 1 && #[trigger] self@.keys()[j] == key) by {
                    if key == before@.keys()[index as int] {
                        assert(self@.keys()[index as int] == key);
                    }
                    if exists|j: int| 0 <= j < index + 1 && #[trigger] self@.keys()[j] == key {
                        let j = choose|j: int| 0 <= j < index + 1 && #[trigger] self@.keys()[j] == key;
                        if j < index {
                            assert(before@.keys()[j] == key);
                        }
                    }
                }
            }
            index = index + 1;
        }
        proof {
            assert forall|key: Seq<char>|
                self@.constants.contains(key) <==> (old(self)@.constants.contains(key) || old(
                    self,
                )@.get(key) is Some) by {
                lemma_index_of(self@.keys(), key);
                if old(self)@.get(key) is Some {
                    let at = index_of(self@.keys(), key)->0;
                    assert(self@.keys()[at] == key);
                }
            }
            assert(self@.constants =~= Set::new(
                |key: Seq<char>| old(self)@.constants.contains(key) || old(self)@.get(key) is Some,
            ));
        }
    }

    /// Whether `key` is locked.
    pub fn is_const(&self, key: &str) -> (locked: bool)
        ensures
            locked == self@.constants.contains(key@),
    {
        let wanted = key.to_owned();
        let mut index: usize = 0;
        while index < self.constants.len()
            invariant
                index <= self.constants.len(),
                wanted@ == key@,
                forall|j: int| 0 <= j < index ==> (#[trigger] self.constants[j])@ != key@,
            decreases self.constants.len() - index,
        {
            if self.constants[index] == wanted {
                return true;
            }
            index = index + 1;
        }
        false
    }

    /// Locks `name`.
    fn lock(&mut self, name: String)
        ensures
            final(self)@.constants == old(self)@.constants.insert(name@),
            final(self)@.fields == old(self)@.fields,
            final(self)@.rebuild == old(self)@.rebuild,
    {
        if !self.is_const(name.as_str()) {
            self.constants.push(name);
        }
        proof {
            assert(self@.fields =~= old(self)@.fields);
            assert forall|key: Seq<char>|
                self@.constants.contains(key) <==> old(self)@.constants.insert(name@).contains(
                    key,
                ) by {
                if holds_key(old(self).constants@, key) {
                    let j = choose|j: int|
                        0 <= j < old(self).constants.len() && (#[trigger] old(self).constants[j])@
                            == key;
                    assert(self.constants[j]@ == key);
                }
                if key == name@ && !old(self)@.constants.contains(name@) {
                    assert(self.constants[self.constants.len() - 1]@ == key);
                }
            }
            assert(self@.constants =~= old(self)@.constants.insert(name@));
        }
    }

    /// Unlocks `key`.
    fn unlock(&mut self, key: &str)
        ensures
            final(self)@.constants == old(self)@.constants.remove(key@),
            final(self)@.fields == old(self)@.fields,
            final(self)@.rebuild == old(self)@.rebuild,
    {
        let wanted = key.to_owned();
        let mut kept: Vec<String> = Vec::new();
        let mut index: usize = 0;
        while index < self.constants.len()
            invariant
                index <= self.constants.len(),
                wanted@ == key@,
                *self == *old(self),
                forall|j: int|
                    0 <= j < kept.len() ==> (#[trigger] kept[j])@ != key@ && holds_key(
                        self.constants@,
                        kept[j]@,
                    ),
                forall|j: int|
                    0 <= j < index && (#[trigger] self.constants[j])@ != key@ ==> holds_key(
                        kept@,
                        self.constants[j]@,
                    ),
            decreases self.constants.len() - index,
        {
            let ghost before = kept@;
            if !(self.constants[index] == wanted) {
                kept.push(self.constants[index].clone());
            }
            proof {
                assert forall|j: int|
                    0 <= j < index + 1 && (#[trigger] self.constants[j])@ != key@ implies holds_key(
                    kept@,
                    self.constants[j]@,
                ) by {
                    if j < index {
                        let m = choose|m: int|
                            0 <= m < before.len() && (#[trigger] before[m])@ == self.constants[j]@;
                        assert(kept[m] == before[m]);
                    } else {
                        assert(kept[kept.len() - 1]@ == self.constants[j]@);
                    }
                }
                assert forall|j: int| 0 <= j < kept.len() implies (#[trigger] kept[j])@ != key@
                    && holds_key(self.constants@, kept[j]@) by {
                    if j < before.len() {
                        assert(kept[j] == before[j]);
                    } else {
                        assert(self.constants[index as int]@ == kept[j]@);
                    }
                }
            }
            index = index + 1;
        }
        self.constants = kept;
        proof {
            assert(self@.fields =~= old(self)@.fields);
            assert forall|name: Seq<char>|
                self@.constants.contains(name) <==> old(self)@.constants.remove(key@).contains(
                    name,
                ) by {
                if holds_key(self.constants@, name) {
                    let j = choose|j: int|
                        0 <= j < self.constants.len() && (#[trigger] self.constants[j])@ == name;
                    assert(holds_key(old(self).constants@, self.constants[j]@));
                }
                if holds_key(old(self).constants@, name) && name != key@ {
                    let j = choose|j: int|
                        0 <= j < old(self).constants.len() && (#[trigger] old(self).constants[j])@
                            == name;
                    assert(holds_key(self.constants@, old(self).constants[j]@));
                }
            }
            assert(self@.constants =~= old(self)@.constants.remove(key@));
        }
    }

    /// Locks `key` where `value` is true, unlocks it where it is false. The
    /// key need not name a field.
    pub fn set_const(&mut self, key: &str, value: bool)
        ensures
            final(self)@.constants == if value {
                old(self)@.constants.insert(key@)
            } else {
                old(self)@.constants.remove(key@)
            },
            final(self)@.fields == old(self)@.fields,
            final(self)@.rebuild == old(self)@.rebuild,
    {
        if value {
            self.lock(key.to_owned());
        } else {
            self.unlock(key);
        }
    }

    /// Stores `value` under `key` and returns the value that was there. A
    /// known key keeps its place; a new key goes to the end. The kind of the
    /// value is not held against the kind of the one it replaces.
    pub fn insert(&mut self, key: String, value: SettingValue) -> (previous: Option<SettingValue>)
        requires
            old(self).wf(),
        ensures
            final(self).wf(),
            previous == old(self)@.get(key@),
            final(self)@.fields == old(self)@.inserted(key@, value),
            final(self)@.constants == old(self)@.constants,
            final(self)@.rebuild == old(self)@.rebuild,
    {
        let found = self.find(key.as_str());
        proof {
            lemma_index_of(self@.keys(), key@);
        }
        match found {
            Some(index) => {
                let previous = self.entries[index].value;
                self.entries.set(index, Entry { key, value });
                proof {
                    assert(self@.fields =~= old(self)@.inserted(key@, value));
                    assert(self@.keys() =~= old(self)@.keys());
                    assert(self@.constants =~= old(self)@.constants);
                }
                Some(previous)
            },
            None => {
                self.entries.push(Entry { key, value });
                proof {
                    assert(self@.fields =~= old(self)@.inserted(key@, value));
                    assert(self@.keys() =~= old(self)@.keys().push(key@));
                    assert(self@.constants =~= old(self)@.constants);
                }
                None
            },
        }
    }

    /// The store as the lines of a settings file: one line for each field, in
    /// the order of the store. `show_real` gives the text of a real number
    /// from its bits.
    pub fn save<F: Fn(u32) -> String>(&self, show_real: F) -> (lines: Vec<String>)
        requires
            forall|bits: u32| call_requires(show_real, (bits,)),
        ensures
            lines.len() == self@.fields.len(),
            forall|i: int|
                0 <= i < lines.len() ==> is_field_line(
                    show_real,
                    self@.fields[i],
                    (#[trigger] lines[i])@,
                ),
    {
        let mut lines: Vec<String> = Vec::new();
        let mut index: usize = 0;
        while index < self.entries.len()
            invariant
                index <= self.entries.len(),
                lines.len() == index,
                forall|bits: u32| call_requires(show_real, (bits,)),
                forall|i: int|
                    0 <= i < index ==> is_field_line(
                        show_real,
                        self@.fields[i],
                        (#[trigger] lines[i])@,
                    ),
            decreases self.entries.len() - index,
        {
            let text = value_text(self.entries[index].value, &show_real);
            let mut line = self.entries[index].key.clone();
            proof {
                reveal_strlit(" = ");
            }
            line.append(" = ");
            line.append(text.as_str());
            proof {
                assert(" = "@ =~= seq![' ', '=', ' ']);
                assert(line@ =~= field_line(self@.fields[index as int].key, text@));
                assert(is_value_text(show_real, self@.fields[index as int].value, text@));
            }
            lines.push(line);
            index = index + 1;
        }
        lines
    }

    /// The store as one record of a keyframe log: the lines of [`Settings::save`],
    /// then the line that closes the record.
    pub fn save_keyframe<F: Fn(u32) -> String>(&self, show_real: F) -> (lines: Vec<String>)
        requires
            forall|bits: u32| call_requires(show_real, (bits,)),
        ensures
            lines.len() == self@.fields.len() + 1,
            forall|i: int|
                0 <= i < self@.fields.len() ==> is_field_line(
                    show_real,
                    self@.fields[i],
                    (#[trigger] lines[i])@,
                ),
            lines[self@.fields.len() as int]@ == separator(),
    {
        let mut lines = self.save(show_real);
        let ghost saved = lines@;
        proof {
            reveal_strlit("---");
        }
        lines.push("---".to_owned());
        proof {
            assert("---"@ =~= separator());
            assert forall|i: int| 0 <= i < self@.fields.len() implies is_field_line(
                show_real,
                self@.fields[i],
                (#[trigger] lines[i])@,
            ) by {
                assert(lines[i] == saved[i]);
            }
        }
        lines
    }

    /// The name of the field at `index` of the table.
    pub fn nth(&self, index: usize) -> (key: &'static str)
        requires
            index < FIELD_COUNT,
        ensures
            key@ == default_key(index as int),
    {
        nth(index)
    }

    /// The initial value of the field named `key`; `None` where the table has
    /// no such field.
    pub fn default_for(key: &str) -> (value: Option<SettingValue>)
        ensures
            value == match index_of(default_keys(), key@) {
                Some(index) => Some(default_value(index)),
                None => None,
            },
    {
        default_for(key)
    }

    /// The names of the table, in order.
    pub fn keys() -> (names: Vec<&'static str>)
        ensures
            names.len() == FIELD_COUNT,
            forall|i: int| 0 <= i < FIELD_COUNT ==> (#[trigger] names[i])@ == default_key(i),
    {
        keys()
    }

    /// The numbers of the fields of the table, in the table's order, four
    /// bytes each with the low byte first: what is uploaded to the device.
    /// Scales, locks and fields beyond the table are not part of it.
    pub fn serialize_binary(&self) -> (bytes: Vec<u8>)
        requires
            self.wf(),
        ensures
            bytes@ == serialized(self@.fields, FIELD_COUNT as int),
    {
        let mut bytes: Vec<u8> = Vec::new();
        let mut index: usize = 0;
        while index < FIELD_COUNT
            invariant
                index <= FIELD_COUNT <= self.entries.len(),
                bytes@ == serialized(self@.fields, index as int),
            decreases FIELD_COUNT - index,
        {
            let number = match self.entries[index].value {
                SettingValue::U32(n) => n,
                SettingValue::F32(bits, _) => bits,
            };
            let mut chunk = u32_to_le_bytes(number);
            bytes.append(&mut chunk);
            index = index + 1;
        }
        bytes
    }

    /// The status listing: one row for each field of the table, in the
    /// table's order. A row holds `*` where the field is the highlighted one,
    /// `@` where it is locked, then the field line.
    pub fn status<F: Fn(u32) -> String>(&self, highlighted: usize, show_real: F) -> (listing: String)
        requires
            self.wf(),
            forall|bits: u32| call_requires(show_real, (bits,)),
        ensures
            is_status(show_real, self@, highlighted as int, listing@),
    {
        let mut listing = String::new();
        let mut index: usize = 0;
        let ghost mut rows: Seq<Seq<char>> = Seq::empty();
        proof {
            reveal_strlit("*");
            reveal_strlit(" ");
            reveal_strlit("@");
            reveal_strlit(" = ");
            reveal_strlit("\n");
        }
        while index < FIELD_COUNT
            invariant
                index <= FIELD_COUNT <= self.entries.len(),
                forall|bits: u32| call_requires(show_real, (bits,)),
                rows.len() == index,
                listing@ == joined(rows),
                forall|i: int|
                    0 <= i < index ==> is_status_row(
                        show_real,
                        self@,
                        highlighted as int,
                        i,
                        #[trigger] rows[i],
                    ),
                "*"@ =~= seq!['*'],
                " "@ =~= seq![' '],
                "@"@ =~= seq!['@'],
                " = "@ =~= seq![' ', '=', ' '],
                "\n"@ =~= seq!['\n'],
            decreases FIELD_COUNT - index,
        {
            let ghost head = listing@;
            let key = self.entries[index].key.as_str();
            let locked = self.is_const(key);
            let text = value_text(self.entries[index].value, &show_real);
            listing.append(if index == highlighted { "*" } else { " " });
            listing.append(if locked { "@" } else { " " });
            listing.append(key);
            listing.append(" = ");
            listing.append(text.as_str());
            listing.append("\n");
            proof {
                let row = status_row(index == highlighted, locked, key@, text@);
                assert(listing@ =~= head + row);
                assert(is_value_text(show_real, self@.fields[index as int].value, text@));
                assert(is_status_row(show_real, self@, highlighted as int, index as int, row));
                assert(rows.push(row).drop_last() == rows);
                rows = rows.push(row);
            }
            index = index + 1;
        }
        listing
    }

    /// Loads one record: applies the lines of `lines` from its position on, up
    /// to and including the line that closes the record. Returns the number
    /// of fields read and whether a line closed the record; `false` means
    /// that the source ended. A line that is refused ends the load with its
    /// error; the fields set before it stay set.
    pub fn load_iter(&mut self, lines: &mut LineSource) -> (result: Result<
        (usize, bool),
        ConfigParseError,
    >)
        ensures
            ({
                let loaded = load_from(
                    old(self)@.fields,
                    old(lines)@.lines,
                    old(lines)@.reals,
                    old(lines)@.next,
                    0,
                );
                &&& final(self)@.fields == loaded.fields
                &&& final(lines)@.next == loaded.next
                &&& result == loaded.result
            }),
            final(lines)@.lines == old(lines)@.lines,
            final(lines)@.reals == old(lines)@.reals,
            final(self)@.keys() == old(self)@.keys(),
            final(self)@.constants == old(self)@.constants,
            final(self)@.rebuild == old(self)@.rebuild,
    {
        let mut count: usize = 0;
        proof {
            lines.lemma_position();
        }
        loop
            invariant
                lines@.lines == old(lines)@.lines,
                lines@.reals == old(lines)@.reals,
                0 <= old(lines)@.next <= lines@.next,
                count <= lines@.next - old(lines)@.next,
                lines@.next <= usize::MAX,
                load_from(
                    old(self)@.fields,
                    old(lines)@.lines,
                    old(lines)@.reals,
                    old(lines)@.next,
                    0,
                ) == load_from(
                    self@.fields,
                    old(lines)@.lines,
                    old(lines)@.reals,
                    lines@.next,
                    count as int,
                ),
                self@.keys() == old(self)@.keys(),
                self@.constants == old(self)@.constants,
                self@.rebuild == old(self)@.rebuild,
            decreases lines@.lines.len() - lines@.next,
        {
            let at = lines.position();
            let reading = lines.current_real();
            let (split, closes) = match lines.current() {
                None => {
                    return Ok((count, false));
                },
                Some(text) => (split_field(text), closes_record(text)),
            };
            lines.advance();
            match split {
                None => {
                    if closes {
                        return Ok((count, true));
                    } else {
                        return Err(ConfigParseError::MalformedLine { line: at });
                    }
                },
                Some(pair) => {
                    let key = pair.0;
                    let found = self.find(key.as_str());
                    proof {
                        lemma_index_of(self@.keys(), key@);
                    }
                    match found {
                        None => {
                            return Err(ConfigParseError::UnknownKey { line: at });
                        },
                        Some(index) => {
                            let stored = match self.entries[index].value {
                                SettingValue::U32(_) => match parse_u32(pair.1.as_str()) {
                                    Some(n) => SettingValue::U32(n),
                                    None => {
                                        return Err(ConfigParseError::InvalidValue { line: at });
                                    },
                                },
                                SettingValue::F32(_, scale) => match reading {
                                    Some(bits) => SettingValue::F32(bits, scale),
                                    None => {
                                        return Err(ConfigParseError::InvalidValue { line: at });
                                    },
                                },
                            };
                            let ghost before = self@;
                            self.entries.set(index, Entry { key, value: stored });
                            proof {
                                assert(self@.fields =~= before.fields.update(
                                    index as int,
                                    Field { key: key@, value: stored },
                                ));
                                assert(self@.keys() =~= before.keys());
                                assert(self@.constants =~= before.constants);
                            }
                            count = count + 1;
                        },
                    }
                },
            }
        }
    }

    /// Loads one record and tells only whether it was accepted.
    pub fn load(&mut self, lines: &mut LineSource) -> (result: Result<(), ConfigParseError>)
        ensures
            ({
                let loaded = load_from(
                    old(self)@.fields,
                    old(lines)@.lines,
                    old(lines)@.reals,
                    old(lines)@.next,
                    0,
                );
                &&& final(self)@.fields == loaded.fields
                &&& final(lines)@.next == loaded.next
                &&& result == match loaded.result {
                    Ok(_) => Ok::<(), ConfigParseError>(()),
                    Err(error) => Err(error),
                }
            }),
            final(lines)@.lines == old(lines)@.lines,
            final(lines)@.reals == old(lines)@.reals,
            final(self)@.keys() == old(self)@.keys(),
            final(self)@.constants == old(self)@.constants,
            final(self)@.rebuild == old(self)@.rebuild,
    {
        match self.load_iter(lines) {
            Ok(_) => Ok(()),
            Err(error) => Err(error),
        }
    }

    /// Replaces the value at position `index`; the key stays.
    pub(crate) fn set_at(&mut self, index: usize, value: SettingValue)
        requires
            index < old(self)@.fields.len(),
        ensures
            final(self)@.fields == old(self)@.fields.update(
                index as int,
                Field { key: old(self)@.fields[index as int].key, value },
            ),
            final(self)@.keys() == old(self)@.keys(),
            final(self)@.constants == old(self)@.constants,
            final(self)@.rebuild == old(self)@.rebuild,
    {
        let key = self.entries[index].key.clone();
        self.entries.set(index, Entry { key, value });
        proof {
            assert(self@.fields =~= old(self)@.fields.update(
                index as int,
                Field { key: old(self)@.fields[index as int].key, value },
            ));
            assert(self@.keys() =~= old(self)@.keys());
            assert(self@.constants =~= old(self)@.constants);
        }
    }

    /// Asks for a rebuild of the kernel.
    pub fn rebuild(&mut self)
        ensures
            final(self)@.rebuild,
            final(self)@.fields == old(self)@.fields,
            final(self)@.constants == old(self)@.constants,
    {
        self.rebuild = true;
        proof {
            assert(self@.fields =~= old(self)@.fields);
            assert(self@.constants =~= old(self)@.constants);
        }
    }

    /// Whether a rebuild was asked for; the request is cleared.
    pub fn check_rebuild(&mut self) -> (asked: bool)
        ensures
            asked == old(self)@.rebuild,
            !final(self)@.rebuild,
            final(self)@.fields == old(self)@.fields,
            final(self)@.constants == old(self)@.constants,
    {
        let asked = self.rebuild;
        self.rebuild = false;
        proof {
            assert(self@.fields =~= old(self)@.fields);
            assert(self@.constants =~= old(self)@.constants);
        }
        asked
    }
}

impl Clone for Settings {
    /// A store with the same fields, locks and rebuild request.
    fn clone(&self) -> (copy: Settings)
        ensures
            copy@ == self@,
    {
        let mut entries: Vec<Entry> = Vec::new();
        let mut index: usize = 0;
        while index < self.entries.len()
            invariant
                index <= self.entries.len(),
                entries.len() == index,
                forall|j: int|
                    0 <= j < index ==> (#[trigger] entries[j]).key@ == self.entries[j].key@
                        && entries[j].value == self.entries[j].value,
            decreases self.entries.len() - index,
        {
            entries.push(
                Entry { key: self.entries[index].key.clone(), value: self.entries[index].value },
            );
            index = index + 1;
        }
        let mut constants: Vec<String> = Vec::new();
        let mut index: usize = 0;
        while index < self.constants.len()
            invariant
                index <= self.constants.len(),
                constants.len() == index,
                forall|j: int| 0 <= j < index ==> (#[trigger] constants[j])@ == self.constants[j]@,
            decreases self.constants.len() - index,
        {
            constants.push(self.constants[index].clone());
            index = index + 1;
        }
        let copy = Settings { entries, constants, rebuild: self.rebuild };
        proof {
            assert(copy@.fields =~= self@.fields);
            assert forall|key: Seq<char>|
                copy@.constants.contains(key) <==> self@.constants.contains(key) by {
                if holds_key(copy.constants@, key) {
                    let j = choose|j: int|
                        0 <= j < copy.constants.len() && (#[trigger] copy.constants[j])@ == key;
                    assert(self.constants[j]@ == key);
                }
                if holds_key(self.constants@, key) {
                    let j = choose|j: int|
                        0 <= j < self.constants.len() && (#[trigger] self.constants[j])@ == key;
                    assert(copy.constants[j]@ == key);
                }
            }
            assert(copy@.constants =~= self@.constants);
        }
        copy
    }
}

impl PartialEq for Settings {
    /// Whether both stores map the same names to the same values. Locks and
    /// rebuild requests are not compared.
    fn eq(&self, other: &Settings) -> (equal: bool) {
        let mut index: usize = 0;
        while index < self.entries.len()
            invariant
                index <= self.entries.len(),
                forall|j: int|
                    0 <= j < index ==> other@.get(#[trigger] self@.keys()[j]) == self@.get(
                        self@.keys()[j],
                    ),
            decreases self.entries.len() - index,
        {
            let key = self.entries[index].key.as_str();
            let ghost name = self@.keys()[index as int];
            proof {
                lemma_index_of(self@.keys(), name);
            }
            let same = match (self.get(key), other.get(key)) {
                (Some(mine), Some(theirs)) => *mine == *theirs,
                _ => false,
            };
            if !same {
                proof {
                    assert(self@.value_map().dom().contains(name));
                    if other@.value_map().dom().contains(name) {
                        assert(other@.value_map()[name] != self@.value_map()[name]);
                    }
                }
                return false;
            }
            index = index + 1;
        }
        let mut index: usize = 0;
        while index < other.entries.len()
            invariant
                index <= other.entries.len(),
                forall|j: int| 0 <= j < index ==> self@.get(#[trigger] other@.keys()[j]) is Some,
            decreases other.entries.len() - index,
        {
            let ghost name = other@.keys()[index as int];
            proof {
                lemma_index_of(other@.keys(), name);
            }
            if self.find(other.entries[index].key.as_str()).is_none() {
                proof {
                    assert(other@.value_map().dom().contains(name));
                    assert(!self@.value_map().dom().contains(name));
                }
                return false;
            }
            index = index + 1;
        }
        proof {
            assert forall|name: Seq<char>| self@.get(name) == other@.get(name) by {
                lemma_index_of(self@.keys(), name);
                lemma_index_of(other@.keys(), name);
                if self@.get(name) is Some {
                    let at = self@.position(name)->0;
                    assert(self@.keys()[at] == name);
                } else if other@.get(name) is Some {
                    let at = other@.position(name)->0;
                    assert(other@.keys()[at] == name);
                }
            }
            assert(self@.value_map() =~= other@.value_map());
        }
        true
    }
}

impl PartialEqSpecImpl for Settings {
    open spec fn obeys_eq_spec() -> bool {
        true
    }

    open spec fn eq_spec(&self, other: &Settings) -> bool {
        self@.value_map() == other@.value_map()
    }
}

} // verus!
