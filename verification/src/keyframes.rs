//! The keyframe list: snapshots of a settings store read from a keyframe log,
//! and a working copy that is set to a blend of four neighbouring snapshots.
//!
//! The arithmetic of the blend is the caller's: it is handed the four numbers
//! of each field and gives back the blended one.
use crate::default_settings::camera;
use crate::default_settings::Camera;
use crate::default_settings::CAMERA_AT;
use crate::default_settings::camera_of;
use crate::default_settings::InterpolateError;
use crate::default_settings::is_oriented;
use crate::default_settings::normalize;
use crate::default_settings::with_camera;
use crate::lines::ConfigParseError;
use crate::lines::LineSource;
use crate::lines::load_from;
use crate::settings::Field;
use crate::settings::keys_of;
use crate::settings::lemma_index_of;
use crate::settings::Settings;
use crate::settings::SettingsView;
use crate::settings::SettingValue;
use vstd::prelude::*;

verus! {

/// The numbers of one field in four neighbouring keyframes.
#[derive(Clone, Copy, Debug, PartialEq, Eq, Structural)]
pub struct Samples {
    /// Whether the numbers are the bits of real numbers.
    pub is_real: bool,
    /// The keyframe before the current one.
    pub prev: u32,
    /// The current keyframe.
    pub cur: u32,
    /// The keyframe after the current one.
    pub next: u32,
    /// The keyframe after that.
    pub next2: u32,
}

/// Why a keyframe list could not be built.
#[derive(Clone, Copy, Debug, PartialEq, Eq, Structural)]
pub enum KeyframeError {
    /// A line of the log was refused.
    Parse(ConfigParseError),
    /// The log holds no closed record with a field in it.
    EmptyKeyframeLog,
}

/// The numbers of four values of one kind; `None` where the kinds differ.
pub open spec fn samples_of(
    prev: SettingValue,
    cur: SettingValue,
    next: SettingValue,
    next2: SettingValue,
) -> Option<Samples> {
    match (prev, cur, next, next2) {
        (
            SettingValue::U32(a),
            SettingValue::U32(b),
            SettingValue::U32(c),
            SettingValue::U32(d),
        ) => Some(Samples { is_real: false, prev: a, cur: b, next: c, next2: d }),
        (
            SettingValue::F32(a, _),
            SettingValue::F32(b, _),
            SettingValue::F32(c, _),
            SettingValue::F32(d, _),
        ) => Some(Samples { is_real: true, prev: a, cur: b, next: c, next2: d }),
        _ => None,
    }
}

/// Whether `result` is a blend of the four values: the current value with its
/// number replaced by what `blend` gives for the four numbers, or the error
/// where the values are not of one kind.
pub open spec fn is_blend<B: Fn(Samples) -> u32>(
    blend: B,
    prev: SettingValue,
    cur: SettingValue,
    next: SettingValue,
    next2: SettingValue,
    result: Result<SettingValue, InterpolateError>,
) -> bool {
    match samples_of(prev, cur, next, next2) {
        Some(samples) => exists|number: u32|
            call_ensures(blend, (samples,), number) && result == Ok::<
                SettingValue,
                InterpolateError,
            >(cur.with_number(number)),
        None => result == Err::<SettingValue, InterpolateError>(InterpolateError::InconsistentType),
    }
}

/// Blends four values of one field. The scale of a real value is that of the
/// current keyframe.
pub fn interpolate<B: Fn(Samples) -> u32>(
    prev: SettingValue,
    cur: SettingValue,
    next: SettingValue,
    next2: SettingValue,
    blend: &B,
) -> (result: Result<SettingValue, InterpolateError>)
    requires
        forall|samples: Samples| call_requires(*blend, (samples,)),
    ensures
        is_blend(*blend, prev, cur, next, next2, result),
{
    match (prev, cur, next, next2) {
        (
            SettingValue::U32(a),
            SettingValue::U32(b),
            SettingValue::U32(c),
            SettingValue::U32(d),
        ) => {
            let samples = Samples { is_real: false, prev: a, cur: b, next: c, next2: d };
            let number = blend(samples);
            let blended = SettingValue::U32(number);
            assert(cur.with_number(number) == blended);
            Ok(blended)
        },
        (
            SettingValue::F32(a, _),
            SettingValue::F32(b, scale),
            SettingValue::F32(c, _),
            SettingValue::F32(d, _),
        ) => {
            let samples = Samples { is_real: true, prev: a, cur: b, next: c, next2: d };
            let number = blend(samples);
            let blended = SettingValue::F32(number, scale);
            assert(cur.with_number(number) == blended);
            Ok(blended)
        },
        _ => Err(InterpolateError::InconsistentType),
    }
}

/// The positions of the four keyframes that are blended around `index_cur`
/// in a list of `count`: the one before, the current one, the next and the
/// one after, each held inside the list.
pub open spec fn stencil(index_cur: int, count: int) -> (int, int, int, int) {
    (
        if index_cur == 0 {
            0
        } else {
            index_cur - 1
        },
        index_cur,
        if index_cur + 1 < count {
            index_cur + 1
        } else {
            count - 1
        },
        if index_cur + 2 < count {
            index_cur + 2
        } else {
            count - 1
        },
    )
}

/// The state in which building a list ends.
pub struct Built {
    /// The fields of the working copy.
    pub base: Seq<Field>,
    /// The fields of the keyframes.
    pub frames: Seq<Seq<Field>>,
    /// The position of the source.
    pub next: int,
    /// The error that ended the build, if one did.
    pub error: Option<ConfigParseError>,
}

/// Building from position `next` with `frames` found so far. Records are
/// loaded one after the other into the working copy. Each record that a line
/// closes and that holds a field adds the working copy as a keyframe. The
/// build ends at the end of the source or at the first line that is refused.
pub open spec fn build_from(
    fields: Seq<Field>,
    lines: Seq<Seq<char>>,
    reals: Seq<Option<u32>>,
    next: int,
    frames: Seq<Seq<Field>>,
) -> Built
    decreases lines.len() - next,
{
    let loaded = load_from(fields, lines, reals, next, 0);
    match loaded.result {
        Err(error) => Built { base: loaded.fields, frames, next: loaded.next, error: Some(error) },
        Ok(read) => if !read.1 || loaded.next <= next || loaded.next > lines.len() {
            Built { base: loaded.fields, frames, next: loaded.next, error: None }
        } else if read.0 == 0 {
            build_from(loaded.fields, lines, reals, loaded.next, frames)
        } else {
            build_from(loaded.fields, lines, reals, loaded.next, frames.push(loaded.fields))
        },
    }
}

/// Loading a record moves the source forward, and past a line where one
/// closed the record.
pub proof fn lemma_load_moves(
    fields: Seq<Field>,
    lines: Seq<Seq<char>>,
    reals: Seq<Option<u32>>,
    next: int,
    count: int,
)
    requires
        0 <= next,
    ensures
        ({
            let loaded = load_from(fields, lines, reals, next, count);
            &&& next <= loaded.next
            &&& loaded.next <= lines.len() || loaded.next == next
            &&& (loaded.result matches Ok(read) ==> read.1 ==> next < loaded.next)
            &&& (loaded.result matches Ok(read) ==> !read.1 ==> loaded.next >= lines.len())
        }),
    decreases lines.len() - next,
{
    if next < lines.len() {
        match crate::lines::line_effect(fields, lines[next], crate::lines::real_at(reals, next)) {
            crate::lines::LineEffect::Stores(updated) => {
                lemma_load_moves(updated, lines, reals, next + 1, count + 1);
            },
            _ => {},
        }
    }
}

/// Whether two lists of fields are as long as each other and hold values of
/// the same kinds at the same places.
pub open spec fn same_kinds(a: Seq<Field>, b: Seq<Field>) -> bool {
    &&& a.len() == b.len()
    &&& forall|i: int| 0 <= i < a.len() ==> (#[trigger] a[i]).value.is_real() == b[i].value.is_real()
}

/// Loading a record changes neither the names nor the kinds of the fields.
pub proof fn lemma_load_keeps_kinds(
    fields: Seq<Field>,
    lines: Seq<Seq<char>>,
    reals: Seq<Option<u32>>,
    next: int,
    count: int,
)
    ensures
        same_kinds(fields, load_from(fields, lines, reals, next, count).fields),
        keys_of(load_from(fields, lines, reals, next, count).fields) == keys_of(fields),
    decreases lines.len() - next,
{
    if 0 <= next < lines.len() {
        match crate::lines::line_effect(fields, lines[next], crate::lines::real_at(reals, next)) {
            crate::lines::LineEffect::Stores(updated) => {
                let pair = crate::text::field_of(lines[next])->0;
                let key = pair.0;
                lemma_index_of(keys_of(fields), key);
                assert(keys_of(updated) =~= keys_of(fields));
                assert(same_kinds(fields, updated));
                lemma_load_keeps_kinds(updated, lines, reals, next + 1, count + 1);
                let loaded = load_from(updated, lines, reals, next + 1, count + 1).fields;
                assert forall|i: int| 0 <= i < fields.len() implies (#[trigger] fields[i]).value.is_real()
                    == loaded[i].value.is_real() by {
                    assert(updated[i].value.is_real() == loaded[i].value.is_real());
                }
            },
            _ => {},
        }
    }
}

/// The model of a [`KeyframeList`].
pub struct KeyframeListView {
    /// The working copy.
    pub base: SettingsView,
    /// The keyframes, in the order of the log.
    pub keyframes: Seq<SettingsView>,
}

impl KeyframeListView {
    /// A list is well formed when it holds a keyframe and every keyframe has
    /// the names of the working copy, in the same order, with values of the
    /// same kinds.
    pub open spec fn wf(self) -> bool {
        &&& self.keyframes.len() > 0
        &&& forall|k: int|
            0 <= k < self.keyframes.len() ==> (#[trigger] self.keyframes[k]).keys()
                == self.base.keys() && same_kinds(self.keyframes[k].fields, self.base.fields)
    }
}

/// Whether `blended` holds, under the names of the working copy, a blend of
/// each field over the keyframes around `index_cur`.
pub open spec fn is_blended<B: Fn(Samples) -> u32>(
    blend: B,
    list: KeyframeListView,
    index_cur: int,
    blended: Seq<Field>,
) -> bool {
    let at = stencil(index_cur, list.keyframes.len() as int);
    &&& blended.len() == list.base.fields.len()
    &&& forall|i: int|
        0 <= i < blended.len() ==> (#[trigger] blended[i]).key == list.base.fields[i].key
            && is_blend(
            blend,
            list.keyframes[at.0].fields[i].value,
            list.keyframes[at.1].fields[i].value,
            list.keyframes[at.2].fields[i].value,
            list.keyframes[at.3].fields[i].value,
            Ok(blended[i].value),
        )
}

/// The four keyframes of a blend lie inside the list, in order; in a list
/// of one they are all that one.
pub proof fn lemma_stencil_inside(index_cur: int, count: int)
    requires
        0 <= index_cur < count,
    ensures
        ({
            let at = stencil(index_cur, count);
            &&& 0 <= at.0 <= at.1 <= at.2 <= at.3 < count
            &&& at.1 == index_cur
            &&& at.1 - at.0 <= 1 && at.2 - at.1 <= 1 && at.3 - at.2 <= 1
            &&& count == 1 ==> at == (0int, 0int, 0int, 0int)
        }),
{
}

/// A blend that gives back the number of the current keyframe, with a
/// camera that `orient` leaves as it is, sets the working copy to the fields
/// of the current keyframe.
pub proof fn lemma_interpolate_exact<B: Fn(Samples) -> u32, O: Fn(Camera) -> Camera>(
    blend: B,
    orient: O,
    list: KeyframeListView,
    index_cur: int,
    blended: Seq<Field>,
    after: Seq<Field>,
)
    requires
        list.wf(),
        0 <= index_cur < list.keyframes.len(),
        is_blended(blend, list, index_cur, blended),
        is_oriented(orient, blended, after),
        forall|samples: Samples, number: u32| #[trigger]
            call_ensures(blend, (samples,), number) ==> number == samples.cur,
        forall|camera: Camera, turned: Camera| #[trigger]
            call_ensures(orient, (camera,), turned) ==> turned == camera,
    ensures
        after == list.keyframes[index_cur].fields,
{
    let current = list.keyframes[index_cur].fields;
    let at = stencil(index_cur, list.keyframes.len() as int);
    assert(list.keyframes[index_cur].keys() == list.base.keys());
    assert(current.len() == list.base.fields.len()) by {
        assert(list.keyframes[index_cur].keys().len() == list.base.keys().len());
    }
    assert forall|i: int| 0 <= i < blended.len() implies blended[i] == current[i] by {
        assert(blended[i].key == list.base.fields[i].key);
        assert(list.keyframes[index_cur].keys()[i] == list.base.keys()[i]);
        let prev = list.keyframes[at.0].fields[i].value;
        let cur = list.keyframes[at.1].fields[i].value;
        let next = list.keyframes[at.2].fields[i].value;
        let next2 = list.keyframes[at.3].fields[i].value;
        assert(is_blend(blend, prev, cur, next, next2, Ok(blended[i].value)));
        assert(cur.with_number(cur.number()) == cur);
    }
    assert(blended =~= current);
    let camera = camera_of(blended)->0;
    assert(with_camera(blended, camera) =~= blended);
}

/// A list of keyframes and a working copy.
#[derive(Debug)]
pub struct KeyframeList {
    base: Settings,
    keyframes: Vec<Settings>,
}

impl View for KeyframeList {
    type V = KeyframeListView;

    closed spec fn view(&self) -> KeyframeListView {
        KeyframeListView {
            base: self.base@,
            keyframes: Seq::new(self.keyframes.len() as nat, |k: int| self.keyframes[k]@),
        }
    }
}

impl KeyframeList {
    /// Whether the list is well formed.
    pub open spec fn wf(&self) -> bool {
        self@.wf()
    }

    /// Builds a list from a keyframe log, with `base` as the working copy
    /// that the records are loaded into. A log without a keyframe is refused.
    pub fn new(lines: &mut LineSource, base: Settings) -> (result: Result<
        KeyframeList,
        KeyframeError,
    >)
        ensures
            ({
                let built = build_from(
                    base@.fields,
                    old(lines)@.lines,
                    old(lines)@.reals,
                    old(lines)@.next,
                    Seq::empty(),
                );
                &&& final(lines)@.next == built.next
                &&& match result {
                    Ok(list) => {
                        &&& built.error is None
                        &&& list.wf()
                        &&& list@.base.fields == built.base
                        &&& list@.base.constants == base@.constants
                        &&& list@.base.rebuild == base@.rebuild
                        &&& list@.keyframes.len() == built.frames.len()
                        &&& forall|k: int|
                            0 <= k < built.frames.len() ==> (#[trigger] list@.keyframes[k]).fields
                                == built.frames[k]
                    },
                    Err(KeyframeError::Parse(error)) => built.error == Some(error),
                    Err(KeyframeError::EmptyKeyframeLog) => built.error is None
                        && built.frames.len() == 0,
                }
            }),
            final(lines)@.lines == old(lines)@.lines,
            final(lines)@.reals == old(lines)@.reals,
    {
        let mut working = base;
        let mut keyframes: Vec<Settings> = Vec::new();
        let ghost start = base@;
        let ghost mut frames: Seq<Seq<Field>> = Seq::empty();
        proof {
            lines.lemma_position();
        }
        loop
            invariant
                lines@.lines == old(lines)@.lines,
                lines@.reals == old(lines)@.reals,
                0 <= lines@.next,
                start == base@,
                working@.keys() == start.keys(),
                working@.constants == start.constants,
                working@.rebuild == start.rebuild,
                frames.len() == keyframes.len(),
                forall|k: int|
                    0 <= k < keyframes.len() ==> (#[trigger] keyframes[k])@.fields == frames[k]
                        && keyframes[k]@.keys() == start.keys() && same_kinds(
                        keyframes[k]@.fields,
                        working@.fields,
                    ),
                build_from(
                    start.fields,
                    old(lines)@.lines,
                    old(lines)@.reals,
                    old(lines)@.next,
                    Seq::empty(),
                ) == build_from(working@.fields, lines@.lines, lines@.reals, lines@.next, frames),
            ensures
                lines@.next >= lines@.lines.len(),
            decreases lines@.lines.len() - lines@.next,
        {
            let ghost before = build_from(
                working@.fields,
                lines@.lines,
                lines@.reals,
                lines@.next,
                frames,
            );
            let ghost earlier = working@.fields;
            proof {
                lemma_load_moves(working@.fields, lines@.lines, lines@.reals, lines@.next, 0);
                lemma_load_keeps_kinds(working@.fields, lines@.lines, lines@.reals, lines@.next, 0);
            }
            let loaded = working.load_iter(lines);
            proof {
                assert forall|k: int| 0 <= k < keyframes.len() implies same_kinds(
                    (#[trigger] keyframes[k])@.fields,
                    working@.fields,
                ) by {
                    assert(same_kinds(keyframes[k]@.fields, earlier));
                    assert forall|i: int| 0 <= i < earlier.len() implies (
                    #[trigger] keyframes[k]@.fields[i]).value.is_real()
                        == working@.fields[i].value.is_real() by {
                        assert(earlier[i].value.is_real() == working@.fields[i].value.is_real());
                    }
                }
            }
            proof {
                if loaded matches Ok(read) && !read.1 {
                    assert(load_from(working@.fields, lines@.lines, lines@.reals, lines@.next, 0)
                        == crate::lines::Loaded {
                        fields: working@.fields,
                        next: lines@.next,
                        result: Ok((0usize, false)),
                    });
                    assert(before == build_from(
                        working@.fields,
                        lines@.lines,
                        lines@.reals,
                        lines@.next,
                        frames,
                    ));
                }
            }
            match loaded {
                Err(error) => {
                    return Err(KeyframeError::Parse(error));
                },
                Ok(read) => {
                    if !read.1 {
                        break ;
                    }
                    if read.0 != 0 {
                        let snapshot = working.clone();
                        proof {
                            frames = frames.push(working@.fields);
                        }
                        keyframes.push(snapshot);
                    }
                },
            }
        }
        proof {
            lemma_load_moves(working@.fields, lines@.lines, lines@.reals, lines@.next, 0);
        }
        if keyframes.len() == 0 {
            return Err(KeyframeError::EmptyKeyframeLog);
        }
        let list = KeyframeList { base: working, keyframes };
        proof {
            assert forall|k: int| 0 <= k < list@.keyframes.len() implies (
            #[trigger] list@.keyframes[k]).keys() == list@.base.keys() by {
                assert(list.keyframes[k]@.keys() == start.keys());
            }
            assert forall|k: int| 0 <= k < list@.keyframes.len() implies same_kinds(
                (#[trigger] list@.keyframes[k]).fields,
                list@.base.fields,
            ) by {
                assert(same_kinds(list.keyframes[k]@.fields, working@.fields));
            }
        }
        Ok(list)
    }

    /// Sets the working copy to the blend of the keyframes around
    /// `index_cur`: each field becomes the blend of its four values, then the
    /// camera is set right by `orient`. In a well-formed list the four values
    /// of a field are of one kind, so the blend is never refused. Keyframes
    /// whose camera is not real leave the working copy as it is.
    pub fn interpolate<B: Fn(Samples) -> u32, O: Fn(Camera) -> Camera>(
        &mut self,
        index_cur: usize,
        blend: B,
        orient: O,
    ) -> (result: Result<(), InterpolateError>)
        requires
            old(self).wf(),
            index_cur < old(self)@.keyframes.len(),
            forall|samples: Samples| call_requires(blend, (samples,)),
            forall|camera: Camera| call_requires(orient, (camera,)),
        ensures
            final(self).wf(),
            final(self)@.keyframes == old(self)@.keyframes,
            final(self)@.base.constants == old(self)@.base.constants,
            final(self)@.base.rebuild == old(self)@.base.rebuild,
            match result {
                Ok(_) => exists|blended: Seq<Field>| #[trigger]
                    is_blended(blend, old(self)@, index_cur as int, blended) && is_oriented(
                        orient,
                        blended,
                        final(self)@.base.fields,
                    ),
                Err(InterpolateError::InconsistentType) => false,
                Err(InterpolateError::CameraNotReal) => {
                    &&& final(self)@.base.fields == old(self)@.base.fields
                    &&& camera_of(old(self)@.keyframes[index_cur as int].fields) is None
                },
            },
    {
        let count = self.base.value_map().len();
        let last = self.keyframes.len() - 1;
        let index_prev = if index_cur == 0 {
            0
        } else {
            index_cur - 1
        };
        let index_next = if index_cur < last {
            index_cur + 1
        } else {
            last
        };
        let index_next2 = if last - index_cur >= 2 {
            index_cur + 2
        } else {
            last
        };
        let ghost at = stencil(index_cur as int, self@.keyframes.len() as int);
        assert(at == (index_prev as int, index_cur as int, index_next as int, index_next2 as int));
        proof {
            assert forall|k: int| 0 <= k < self@.keyframes.len() implies (
            #[trigger] self@.keyframes[k]).fields.len() == count by {
                assert(self@.keyframes[k].keys().len() == self@.base.keys().len());
            }
        }
        let mut values: Vec<SettingValue> = Vec::new();
        let mut i: usize = 0;
        while i < count
            invariant
                i <= count,
                values.len() == i,
                *self == *old(self),
                self.wf(),
                count == self@.base.fields.len(),
                index_prev <= index_cur <= index_next <= index_next2 < self@.keyframes.len(),
                at == (index_prev as int, index_cur as int, index_next as int, index_next2 as int),
                at == stencil(index_cur as int, self@.keyframes.len() as int),
                forall|k: int|
                    0 <= k < self@.keyframes.len() ==> (#[trigger] self@.keyframes[k]).fields.len()
                        == count,
                forall|samples: Samples| call_requires(blend, (samples,)),
                forall|j: int|
                    0 <= j < i ==> is_blend(
                        blend,
                        self@.keyframes[at.0].fields[j].value,
                        self@.keyframes[at.1].fields[j].value,
                        self@.keyframes[at.2].fields[j].value,
                        self@.keyframes[at.3].fields[j].value,
                        Ok(#[trigger] values[j]),
                    ),
            decreases count - i,
        {
            let prev = self.keyframes[index_prev].value_map()[i].value;
            let cur = self.keyframes[index_cur].value_map()[i].value;
            let next = self.keyframes[index_next].value_map()[i].value;
            let next2 = self.keyframes[index_next2].value_map()[i].value;
            proof {
                assert(self@.keyframes[index_prev as int] == self.keyframes[index_prev as int]@);
                assert(self@.keyframes[index_cur as int] == self.keyframes[index_cur as int]@);
                assert(self@.keyframes[index_next as int] == self.keyframes[index_next as int]@);
                assert(self@.keyframes[index_next2 as int] == self.keyframes[index_next2 as int]@);
            }
            match interpolate(prev, cur, next, next2, &blend) {
                Err(error) => {
                    proof {
                        let at_i = i as int;
                        assert(self@.keyframes[index_prev as int].fields[at_i].value.is_real()
                            == self@.base.fields[at_i].value.is_real());
                        assert(self@.keyframes[index_cur as int].fields[at_i].value.is_real()
                            == self@.base.fields[at_i].value.is_real());
                        assert(self@.keyframes[index_next as int].fields[at_i].value.is_real()
                            == self@.base.fields[at_i].value.is_real());
                        assert(self@.keyframes[index_next2 as int].fields[at_i].value.is_real()
                            == self@.base.fields[at_i].value.is_real());
                        assert(false);
                    }
                    return Err(error);
                },
                Ok(value) => {
                    values.push(value);
                },
            }
            i = i + 1;
        }
        proof {
            assert forall|j: int| 0 <= j < count implies (#[trigger] values[j]).is_real()
                == self@.keyframes[index_cur as int].fields[j].value.is_real() by {
                assert(is_blend(
                    blend,
                    self@.keyframes[at.0].fields[j].value,
                    self@.keyframes[at.1].fields[j].value,
                    self@.keyframes[at.2].fields[j].value,
                    self@.keyframes[at.3].fields[j].value,
                    Ok(values[j]),
                ));
            }
        }
        if !camera_is_real(&values) {
            return Err(InterpolateError::CameraNotReal);
        }
        let mut j: usize = 0;
        while j < count
            invariant
                j <= count,
                values.len() == count,
                count == self@.base.fields.len(),
                self@.keyframes == old(self)@.keyframes,
                self@.base.keys() == old(self)@.base.keys(),
                self@.base.constants == old(self)@.base.constants,
                self@.base.rebuild == old(self)@.base.rebuild,
                forall|k: int|
                    0 <= k < j ==> (#[trigger] self@.base.fields[k]).value == values[k],
            decreases count - j,
        {
            let ghost before = self@.base;
            self.base.set_at(j, values[j]);
            proof {
                assert(self@.keyframes =~= old(self)@.keyframes);
                assert forall|k: int| 0 <= k < j + 1 implies (#[trigger] self@.base.fields[k]).value
                    == values[k] by {
                    if k < j {
                        assert(before.fields[k].value == values[k]);
                    }
                }
            }
            j = j + 1;
        }
        let ghost blended = self@.base.fields;
        proof {
            assert forall|k: int| 0 <= k < blended.len() implies (#[trigger] blended[k]).key == old(
                self,
            )@.base.fields[k].key by {
                assert(self@.base.keys()[k] == old(self)@.base.keys()[k]);
            }
            assert(is_blended(blend, old(self)@, index_cur as int, blended));
            assert(camera_of(blended) is Some);
        }
        let turned = normalize(&mut self.base, orient);
        proof {
            assert(self@.keyframes =~= old(self)@.keyframes);
            let after = self@.base.fields;
            let current = old(self)@.keyframes[index_cur as int].fields;
            assert(same_kinds(current, old(self)@.base.fields));
            assert forall|k: int| 0 <= k < after.len() implies (#[trigger] after[k]).value.is_real()
                == old(self)@.base.fields[k].value.is_real() by {
                assert(blended[k].value == values[k]);
                assert(values[k].is_real() == current[k].value.is_real());
                assert(current[k].value.is_real() == old(self)@.base.fields[k].value.is_real());
            }
            assert forall|k: int| 0 <= k < self@.keyframes.len() implies same_kinds(
                (#[trigger] self@.keyframes[k]).fields,
                after,
            ) by {
                let frame = self@.keyframes[k].fields;
                assert(same_kinds(old(self)@.keyframes[k].fields, old(self)@.base.fields));
                assert forall|i: int| 0 <= i < frame.len() implies (#[trigger] frame[i]).value.is_real()
                    == after[i].value.is_real() by {
                    assert(after[i].value.is_real() == old(self)@.base.fields[i].value.is_real());
                }
            }
        }
        turned
    }

    /// The working copy.
    pub fn base(&self) -> (base: &Settings)
        ensures
            base@ == self@.base,
    {
        &self.base
    }

    /// The number of keyframes.
    pub fn len(&self) -> (count: usize)
        ensures
            count == self@.keyframes.len(),
    {
        self.keyframes.len()
    }

    /// The keyframe at `index`.
    pub fn keyframe(&self, index: usize) -> (frame: &Settings)
        requires
            index < self@.keyframes.len(),
        ensures
            frame@ == self@.keyframes[index as int],
    {
        &self.keyframes[index]
    }
}

/// Whether the six camera fields among `values` are there and real.
fn camera_is_real(values: &Vec<SettingValue>) -> (all: bool)
    ensures
        all == (values.len() >= CAMERA_AT + 6 && forall|k: int|
            CAMERA_AT <= k < CAMERA_AT + 6 ==> (#[trigger] values[k]).is_real()),
{
    if values.len() < CAMERA_AT + 6 {
        return false;
    }
    let mut k: usize = CAMERA_AT;
    while k < CAMERA_AT + 6
        invariant
            CAMERA_AT <= k <= CAMERA_AT + 6 <= values.len(),
            forall|m: int| CAMERA_AT <= m < k ==> (#[trigger] values[m]).is_real(),
        decreases CAMERA_AT + 6 - k,
    {
        match values[k] {
            SettingValue::U32(_) => {
                return false;
            },
            SettingValue::F32(_, _) => {},
        }
        k = k + 1;
    }
    true
}

} // verus!
