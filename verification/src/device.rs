//! The choice of a compute device.
//!
//! The platforms are known by the number of devices of each. A context is
//! made by the caller's `connect`, which may refuse. An index picks one
//! device out of all, counted platform by platform. Without an index every
//! platform is tried for a graphics device, then every platform is tried for
//! any device.
use vstd::prelude::*;

verus! {

/// What a context is asked for.
#[derive(Clone, Copy, Debug, PartialEq, Eq, Structural)]
pub enum Choice {
    /// One device of one platform.
    Device { platform: usize, device: usize },
    /// A graphics device of the platform.
    Gpu { platform: usize },
    /// Any device of the platform.
    Any { platform: usize },
}

/// Why no device was chosen.
#[derive(Debug)]
pub enum DeviceSelectionError<E> {
    /// The index is not below the number of devices.
    DeviceIndexOutOfRange { index: usize, count: usize },
    /// Every attempt was refused; this is the error of the last one, if one
    /// was made.
    NoComputeDeviceFound(Option<E>),
}

/// The number of devices of all platforms.
pub open spec fn device_count(counts: Seq<usize>) -> int
    decreases counts.len(),
{
    if counts.len() == 0 {
        0
    } else {
        device_count(counts.drop_last()) + counts.last()
    }
}

/// The platform and the device at `index`, counting the devices platform by
/// platform; `None` where there are not that many.
pub open spec fn locate(counts: Seq<usize>, index: int) -> Option<(int, int)>
    decreases counts.len(),
{
    if counts.len() == 0 || index < 0 {
        None
    } else {
        let before = device_count(counts.drop_last());
        if index >= before {
            if index - before < counts.last() {
                Some((counts.len() - 1, index - before))
            } else {
                None
            }
        } else {
            locate(counts.drop_last(), index)
        }
    }
}

/// Whether `connect` may be asked for `choice`: with an index, for the device
/// at it alone, and for nothing where there is none; without an index, for a
/// graphics device or any device of each platform.
pub open spec fn may_ask(counts: Seq<usize>, preferred: Option<usize>, choice: Choice) -> bool {
    match preferred {
        Some(index) => match locate(counts, index as int) {
            Some(at) => choice == (Choice::Device {
                platform: at.0 as usize,
                device: at.1 as usize,
            }),
            None => false,
        },
        None => match choice {
            Choice::Device { .. } => false,
            Choice::Gpu { platform } => platform < counts.len(),
            Choice::Any { platform } => platform < counts.len(),
        },
    }
}

/// Whether `connect` refused `choice`.
pub open spec fn is_refused<C, E, F: Fn(Choice) -> Result<C, E>>(connect: F, choice: Choice) -> bool {
    exists|error: E| #[trigger] call_ensures(connect, (choice,), Err::<C, E>(error))
}

/// Whether `connect` refused a graphics device on each of the first `upto`
/// platforms.
pub open spec fn no_gpu<C, E, F: Fn(Choice) -> Result<C, E>>(connect: F, upto: int) -> bool {
    forall|platform: usize|
        platform < upto ==> #[trigger] is_refused::<C, E, F>(connect, Choice::Gpu { platform })
}

/// Whether `connect` refused any device on each of the first `upto`
/// platforms.
pub open spec fn no_device<C, E, F: Fn(Choice) -> Result<C, E>>(connect: F, upto: int) -> bool {
    forall|platform: usize|
        platform < upto ==> #[trigger] is_refused::<C, E, F>(connect, Choice::Any { platform })
}

/// Whether `context` is what the search without an index gives at
/// `platform`: its graphics device, where no platform before it gave one; or
/// any device of it, where no platform gave a graphics device and none before
/// it gave any device.
pub open spec fn is_pick<C, E, F: Fn(Choice) -> Result<C, E>>(
    connect: F,
    counts: Seq<usize>,
    platform: usize,
    context: C,
) -> bool {
    &&& platform < counts.len()
    &&& {
        ||| call_ensures(connect, (Choice::Gpu { platform },), Ok::<C, E>(context)) && no_gpu::<
            C,
            E,
            F,
        >(connect, platform as int)
        ||| call_ensures(connect, (Choice::Any { platform },), Ok::<C, E>(context)) && no_gpu::<
            C,
            E,
            F,
        >(connect, counts.len() as int) && no_device::<C, E, F>(connect, platform as int)
    }
}

/// Whether `result` is what the selection of the device at `index` gives:
/// the context of that device, or the error of its refusal; an index beyond
/// the devices is an error of its own.
pub open spec fn is_chosen<C, E, F: Fn(Choice) -> Result<C, E>>(
    connect: F,
    counts: Seq<usize>,
    index: usize,
    result: Result<C, DeviceSelectionError<E>>,
) -> bool {
    match locate(counts, index as int) {
        None => result matches Err(DeviceSelectionError::DeviceIndexOutOfRange { index: i, count })
            && i == index && count == device_count(counts),
        Some(at) => {
            let choice = Choice::Device { platform: at.0 as usize, device: at.1 as usize };
            match result {
                Ok(context) => call_ensures(connect, (choice,), Ok::<C, E>(context)),
                Err(DeviceSelectionError::NoComputeDeviceFound(Some(error))) => call_ensures(
                    connect,
                    (choice,),
                    Err::<C, E>(error),
                ),
                Err(_) => false,
            }
        },
    }
}

/// Whether `result` is what the search without an index gives: the context
/// of the first platform that gave a graphics device; where none did, of the
/// first that gave any device; where none did, the error of the last
/// refusal.
pub open spec fn is_searched<C, E, F: Fn(Choice) -> Result<C, E>>(
    connect: F,
    counts: Seq<usize>,
    result: Result<C, DeviceSelectionError<E>>,
) -> bool {
    match result {
        Ok(context) => exists|platform: usize| #[trigger]
            is_pick::<C, E, F>(connect, counts, platform, context),
        Err(DeviceSelectionError::NoComputeDeviceFound(last)) => {
            &&& no_gpu::<C, E, F>(connect, counts.len() as int)
            &&& no_device::<C, E, F>(connect, counts.len() as int)
            &&& match last {
                None => counts.len() == 0,
                Some(error) => counts.len() > 0 && call_ensures(
                    connect,
                    (Choice::Any { platform: (counts.len() - 1) as usize },),
                    Err::<C, E>(error),
                ),
            }
        },
        Err(_) => false,
    }
}

/// Whether `result` is what the selection gives: that of the device at the
/// index where there is one, else that of the search.
pub open spec fn is_selected<C, E, F: Fn(Choice) -> Result<C, E>>(
    connect: F,
    counts: Seq<usize>,
    preferred: Option<usize>,
    result: Result<C, DeviceSelectionError<E>>,
) -> bool {
    match preferred {
        Some(index) => is_chosen(connect, counts, index, result),
        None => is_searched(connect, counts, result),
    }
}

/// Finds the platform and the device at `index`.
fn find_device(counts: &Vec<usize>, index: usize) -> (found: Result<(usize, usize), usize>)
    ensures
        match found {
            Ok(at) => locate(counts@, index as int) == Some((at.0 as int, at.1 as int))
                && at.0 < counts.len(),
            Err(count) => locate(counts@, index as int) is None && count == device_count(counts@),
        },
{
    let mut before: usize = 0;
    let mut platform: usize = 0;
    while platform < counts.len()
        invariant
            platform <= counts.len(),
            before == device_count(counts@.take(platform as int)),
            before <= index,
            locate(counts@.take(platform as int), index as int) is None,
        decreases counts.len() - platform,
    {
        let ghost upto = counts@.take(platform + 1);
        assert(upto.drop_last() == counts@.take(platform as int));
        let here = counts[platform];
        if index - before < here {
            proof {
                lemma_locate_extends(counts@, platform + 1, index as int);
            }
            return Ok((platform, index - before));
        }
        before = before + here;
        platform = platform + 1;
    }
    assert(counts@.take(platform as int) == counts@);
    Err(before)
}

/// A device found among the first platforms is the device found among all.
proof fn lemma_locate_extends(counts: Seq<usize>, upto: int, index: int)
    requires
        0 <= upto <= counts.len(),
        locate(counts.take(upto), index) is Some,
    ensures
        locate(counts, index) == locate(counts.take(upto), index),
    decreases counts.len() - upto,
{
    if upto < counts.len() {
        let next = counts.take(upto + 1);
        assert(next.drop_last() == counts.take(upto));
        lemma_locate_bound(counts.take(upto), index);
        lemma_locate_extends(counts, upto + 1, index);
    } else {
        assert(counts.take(upto) == counts);
    }
}

/// A device that is found has an index below the number of devices; one that
/// is not has none.
pub proof fn lemma_locate_bound(counts: Seq<usize>, index: int)
    ensures
        locate(counts, index) is Some <==> 0 <= index < device_count(counts),
        device_count(counts) >= 0,
    decreases counts.len(),
{
    if counts.len() > 0 {
        lemma_locate_bound(counts.drop_last(), index);
    }
}

/// Chooses a compute device and returns its context.
///
/// `counts` holds the number of devices of each platform. `connect` is asked
/// only for what [`may_ask`] admits: with an index beyond the devices it is
/// not asked at all.
pub fn select<C, E, F: Fn(Choice) -> Result<C, E>>(
    counts: &Vec<usize>,
    preferred: Option<usize>,
    connect: &F,
) -> (result: Result<C, DeviceSelectionError<E>>)
    requires
        forall|choice: Choice|
            may_ask(counts@, preferred, choice) ==> #[trigger] call_requires(*connect, (choice,)),
    ensures
        is_selected(*connect, counts@, preferred, result),
{
    match preferred {
        Some(index) => match find_device(counts, index) {
            Err(count) => {
                proof {
                    lemma_locate_bound(counts@, index as int);
                }
                Err(DeviceSelectionError::DeviceIndexOutOfRange { index, count })
            },
            Ok(at) => match connect(Choice::Device { platform: at.0, device: at.1 }) {
                Ok(context) => Ok(context),
                Err(error) => Err(DeviceSelectionError::NoComputeDeviceFound(Some(error))),
            },
        },
        None => {
            let mut platform: usize = 0;
            while platform < counts.len()
                invariant
                    platform <= counts.len(),
                    preferred is None,
                    forall|choice: Choice|
                        may_ask(counts@, preferred, choice) ==> #[trigger] call_requires(
                            *connect,
                            (choice,),
                        ),
                    no_gpu::<C, E, F>(*connect, platform as int),
                decreases counts.len() - platform,
            {
                match connect(Choice::Gpu { platform }) {
                    Ok(context) => {
                        assert(is_pick::<C, E, F>(*connect, counts@, platform, context));
                        let found: Result<C, DeviceSelectionError<E>> = Ok(context);
                        assert(is_pick::<C, E, F>(*connect, counts@, platform, found->Ok_0));
                        return found;
                    },
                    Err(error) => {
                        assert(is_refused::<C, E, F>(*connect, Choice::Gpu { platform })) by {
                            assert(call_ensures(
                                *connect,
                                (Choice::Gpu { platform },),
                                Err::<C, E>(error),
                            ));
                        }
                    },
                }
                platform = platform + 1;
            }
            let mut last: Option<E> = None;
            let mut platform: usize = 0;
            while platform < counts.len()
                invariant
                    platform <= counts.len(),
                    preferred is None,
                    forall|choice: Choice|
                        may_ask(counts@, preferred, choice) ==> #[trigger] call_requires(
                            *connect,
                            (choice,),
                        ),
                    no_gpu::<C, E, F>(*connect, counts.len() as int),
                    no_device::<C, E, F>(*connect, platform as int),
                    match last {
                        None => platform == 0,
                        Some(error) => platform > 0 && call_ensures(
                            *connect,
                            (Choice::Any { platform: (platform - 1) as usize },),
                            Err::<C, E>(error),
                        ),
                    },
                decreases counts.len() - platform,
            {
                match connect(Choice::Any { platform }) {
                    Ok(context) => {
                        assert(is_pick::<C, E, F>(*connect, counts@, platform, context));
                        let found: Result<C, DeviceSelectionError<E>> = Ok(context);
                        assert(is_pick::<C, E, F>(*connect, counts@, platform, found->Ok_0));
                        return found;
                    },
                    Err(error) => {
                        assert(is_refused::<C, E, F>(*connect, Choice::Any { platform })) by {
                            assert(call_ensures(
                                *connect,
                                (Choice::Any { platform },),
                                Err::<C, E>(error),
                            ));
                        }
                        last = Some(error);
                    },
                }
                platform = platform + 1;
            }
            Err(DeviceSelectionError::NoComputeDeviceFound(last))
        },
    }
}

} // verus!
