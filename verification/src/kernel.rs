//! The kernel's side of a frame: the textures it renders into, the program it
//! runs and the counter of frames accumulated since the picture last changed.
//!
//! Nothing here touches a device. Compiling, uploading, binding, allocating,
//! dispatching and reading back are functions of the caller; this module
//! decides when each is called and with what, and keeps the state.
use crate::default_settings::FIELD_COUNT;
use crate::settings::serialized;
use crate::settings::Settings;
use crate::settings::SettingsView;
use crate::settings::SettingValue;
use vstd::prelude::*;
use vstd::std_specs::cmp::PartialEqSpec;

verus! {

/// A texture on the device: its name there and its size.
#[derive(Clone, Copy, Debug, PartialEq, Eq, Structural)]
pub struct Texture {
    pub id: u32,
    pub width: usize,
    pub height: usize,
}

/// The model of a [`KernelImage`].
pub struct KernelImageView {
    /// The size asked for.
    pub width: usize,
    pub height: usize,
    /// What both sides of the size are divided by; at least one.
    pub scale: usize,
    /// Whether the output texture is shared with the graphics side.
    pub interop: bool,
    /// The scratch texture, once allocated.
    pub scratch: Option<Texture>,
    /// The output texture, once allocated.
    pub output: Option<Texture>,
    /// The textures given up and not yet handed to the caller.
    pub released: Seq<Texture>,
}

impl KernelImageView {
    /// The effective size: the size asked for, divided by the scale.
    pub open spec fn size(self) -> (usize, usize) {
        ((self.width / self.scale) as usize, (self.height / self.scale) as usize)
    }

    /// Whether `texture` has the effective size.
    pub open spec fn fits(self, texture: Option<Texture>) -> bool {
        texture matches Some(t) ==> t.width == self.size().0 && t.height == self.size().1
    }

    /// An image is well formed when its scale is at least one and its
    /// textures have the effective size.
    pub open spec fn wf(self) -> bool {
        &&& self.scale >= 1
        &&& self.fits(self.scratch)
        &&& self.fits(self.output)
    }

    /// The image after its size and scale are changed: a scale of zero
    /// counts as one; where the effective size changes, both textures are
    /// given up; where it stays, nothing else changes.
    pub open spec fn resized(self, width: usize, height: usize, scale: usize) -> KernelImageView {
        let sized = KernelImageView {
            width,
            height,
            scale: if scale == 0 {
                1
            } else {
                scale
            },
            ..self
        };
        if sized.size() == self.size() {
            sized
        } else {
            KernelImageView { output: None, scratch: None, released: self.given_up(), ..sized }
        }
    }

    /// `released` with the textures of the image added: the output first.
    pub open spec fn given_up(self) -> Seq<Texture> {
        let with_output = match self.output {
            Some(t) => self.released.push(t),
            None => self.released,
        };
        match self.scratch {
            Some(t) => with_output.push(t),
            None => with_output,
        }
    }
}

/// Whether `now` fills the place of `had`: the texture that was there, or one
/// of the effective size whose name `allocate` gave.
pub open spec fn is_filled<E, A: Fn(usize, usize) -> Result<u32, E>>(
    allocate: A,
    size: (usize, usize),
    had: Option<Texture>,
    now: Texture,
) -> bool {
    match had {
        Some(t) => now == t,
        None => now.width == size.0 && now.height == size.1 && call_ensures(
            allocate,
            (size.0, size.1),
            Ok::<u32, E>(now.id),
        ),
    }
}

/// Whether `after` and `result` are what preparing `before` gives: both
/// textures in place, or the error of the allocation that failed, with the
/// output kept where it was allocated before the scratch texture failed.
pub open spec fn is_prepared<E, A: Fn(usize, usize) -> Result<u32, E>>(
    allocate: A,
    before: KernelImageView,
    after: KernelImageView,
    result: Result<(Texture, Texture), E>,
) -> bool {
    let size = before.size();
    &&& after.width == before.width
    &&& after.height == before.height
    &&& after.scale == before.scale
    &&& after.interop == before.interop
    &&& after.released == before.released
    &&& match result {
        Ok(pair) => {
            &&& after.output == Some(pair.0)
            &&& after.scratch == Some(pair.1)
            &&& is_filled(allocate, size, before.output, pair.0)
            &&& is_filled(allocate, size, before.scratch, pair.1)
        },
        Err(error) => {
            &&& call_ensures(allocate, (size.0, size.1), Err::<u32, E>(error))
            &&& after.scratch == before.scratch
            &&& if before.output is None && after.output is None {
                true
            } else {
                &&& before.scratch is None
                &&& after.output matches Some(t)
                &&& is_filled(allocate, size, before.output, t)
            }
        },
    }
}

/// What a download gives.
#[derive(Debug)]
pub enum Download {
    /// Nothing was rendered yet.
    Empty,
    /// The shared output texture itself.
    Interop(Texture),
    /// The pixels of the output texture, copied to the host.
    HostBuffer { pixels: Vec<u8>, width: usize, height: usize },
}

/// The textures that the kernel renders into.
#[derive(Debug)]
pub struct KernelImage {
    width: usize,
    height: usize,
    scale: usize,
    interop: bool,
    scratch: Option<Texture>,
    output: Option<Texture>,
    released: Vec<Texture>,
}

impl View for KernelImage {
    type V = KernelImageView;

    closed spec fn view(&self) -> KernelImageView {
        KernelImageView {
            width: self.width,
            height: self.height,
            scale: self.scale,
            interop: self.interop,
            scratch: self.scratch,
            output: self.output,
            released: self.released@,
        }
    }
}

impl KernelImage {
    /// Whether the image is well formed.
    pub open spec fn wf(&self) -> bool {
        self@.wf()
    }

    /// An image of the given size at scale one, with nothing allocated.
    pub fn new(width: usize, height: usize, interop: bool) -> (image: KernelImage)
        ensures
            image.wf(),
            image@ == (KernelImageView {
                width,
                height,
                scale: 1,
                interop,
                scratch: None,
                output: None,
                released: Seq::empty(),
            }),
    {
        KernelImage {
            width,
            height,
            scale: 1,
            interop,
            scratch: None,
            output: None,
            released: Vec::new(),
        }
    }

    /// The effective size.
    pub fn size(&self) -> (size: (usize, usize))
        requires
            self.wf(),
        ensures
            size == self@.size(),
    {
        (self.width / self.scale, self.height / self.scale)
    }

    /// The output and the scratch texture, each allocated at the effective
    /// size where it was missing. `allocate` is called at most once for each
    /// and gives the name of a new texture of the given width and height.
    pub fn data<E, A: Fn(usize, usize) -> Result<u32, E>>(&mut self, allocate: &A) -> (result: Result<
        (Texture, Texture),
        E,
    >)
        requires
            old(self).wf(),
            forall|width: usize, height: usize| call_requires(*allocate, (width, height)),
        ensures
            final(self).wf(),
            is_prepared(*allocate, old(self)@, final(self)@, result),
    {
        let (width, height) = self.size();
        let output = match self.output {
            Some(texture) => texture,
            None => match allocate(width, height) {
                Ok(id) => {
                    let texture = Texture { id, width, height };
                    self.output = Some(texture);
                    texture
                },
                Err(error) => {
                    return Err(error);
                },
            },
        };
        let scratch = match self.scratch {
            Some(texture) => texture,
            None => match allocate(width, height) {
                Ok(id) => {
                    let texture = Texture { id, width, height };
                    self.scratch = Some(texture);
                    texture
                },
                Err(error) => {
                    return Err(error);
                },
            },
        };
        Ok((output, scratch))
    }

    /// Changes the size asked for and the scale; a scale of zero counts as
    /// one. Where the effective size changes, both textures are given up;
    /// where it stays, nothing else changes. Returns whether it changed.
    pub fn resize(&mut self, new_width: usize, new_height: usize, new_scale: usize) -> (changed: bool)
        requires
            old(self).wf(),
        ensures
            final(self).wf(),
            final(self)@ == old(self)@.resized(new_width, new_height, new_scale),
            changed == (final(self)@.size() != old(self)@.size()),
    {
        let old_size = self.size();
        self.width = new_width;
        self.height = new_height;
        self.scale = if new_scale == 0 {
            1
        } else {
            new_scale
        };
        let new_size = self.size_unchecked();
        let changed = old_size.0 != new_size.0 || old_size.1 != new_size.1;
        if changed {
            match self.output {
                Some(texture) => {
                    self.released.push(texture);
                },
                None => {},
            }
            match self.scratch {
                Some(texture) => {
                    self.released.push(texture);
                },
                None => {},
            }
            self.scratch = None;
            self.output = None;
        }
        changed
    }

    /// The effective size of an image whose textures may not fit it.
    fn size_unchecked(&self) -> (size: (usize, usize))
        requires
            self@.scale >= 1,
        ensures
            size == self@.size(),
    {
        (self.width / self.scale, self.height / self.scale)
    }

    /// The textures given up since the last call, oldest first. The caller
    /// frees them on the device.
    pub fn take_released(&mut self) -> (released: Vec<Texture>)
        ensures
            released@ == old(self)@.released,
            final(self)@ == (KernelImageView { released: Seq::empty(), ..old(self)@ }),
    {
        let mut released: Vec<Texture> = Vec::new();
        released.append(&mut self.released);
        released
    }

    /// The picture: the shared output texture where the image is shared with
    /// the graphics side, else the pixels that `read` copies from the output
    /// texture. Before the first allocation there is no picture, which is no
    /// error.
    pub fn download<E, R: Fn(Texture) -> Result<Vec<u8>, E>>(&self, read: &R) -> (result: Result<
        Download,
        E,
    >)
        requires
            forall|texture: Texture| call_requires(*read, (texture,)),
        ensures
            match self@.output {
                None => result matches Ok(Download::Empty),
                Some(texture) => if self@.interop {
                    result matches Ok(Download::Interop(shared)) && shared == texture
                } else {
                    match result {
                        Ok(Download::HostBuffer { pixels, width, height }) => {
                            &&& width == texture.width
                            &&& height == texture.height
                            &&& call_ensures(*read, (texture,), Ok::<Vec<u8>, E>(pixels))
                        },
                        Ok(_) => false,
                        Err(error) => call_ensures(*read, (texture,), Err::<Vec<u8>, E>(error)),
                    }
                },
            },
    {
        match self.output {
            None => Ok(Download::Empty),
            Some(texture) => {
                if self.interop {
                    Ok(Download::Interop(texture))
                } else {
                    match read(texture) {
                        Ok(pixels) => Ok(
                            Download::HostBuffer {
                                pixels,
                                width: texture.width,
                                height: texture.height,
                            },
                        ),
                        Err(error) => Err(error),
                    }
                }
            },
        }
    }
}

/// An argument of the kernel program.
#[derive(Clone, Copy, Debug, PartialEq, Eq, Structural)]
pub enum KernelArg {
    Width,
    Height,
    Frame,
}

/// Why a step was given up.
#[derive(Debug)]
pub enum StepError<E> {
    /// The device refused an upload, a binding, an allocation or the
    /// dispatch.
    Device(E),
    /// The settings hold no whole number under `render_scale`.
    RenderScale,
    /// The effective size does not fit the 32 bits of a kernel argument.
    TooLarge,
}

/// How a step went.
#[derive(Debug)]
pub struct StepReport<E> {
    /// The error of a build that failed; the program built before, if there
    /// is one, stayed in use.
    pub build_error: Option<E>,
    /// Whether the kernel was dispatched; it is not while no program exists.
    pub dispatched: bool,
}

/// The model of a [`FractalKernel`].
pub struct FractalKernelView {
    /// The program in use, once one was built.
    pub kernel: Option<u32>,
    /// The textures.
    pub data: KernelImageView,
    /// The settings last uploaded.
    pub old_settings: SettingsView,
    /// Whether settings were uploaded at all.
    pub synced: bool,
    /// The number of frames accumulated since the picture last changed.
    pub frame: u32,
}

/// The scale that the settings ask for: the whole number under
/// `render_scale`.
pub open spec fn render_scale_of(settings: SettingsView) -> Option<usize> {
    match settings.get("render_scale"@) {
        Some(SettingValue::U32(scale)) => Some(scale as usize),
        _ => None,
    }
}

/// The frame counter after one more frame. It stays at its largest value.
pub open spec fn next_frame(frame: u32) -> u32 {
    if frame == u32::MAX {
        frame
    } else {
        (frame + 1) as u32
    }
}

impl FractalKernelView {
    /// A kernel is well formed when its image and its settings are.
    pub open spec fn wf(self) -> bool {
        self.data.wf() && self.old_settings.wf()
    }

    /// The kernel after its image is resized: the frame counter starts over
    /// where the effective size changes.
    pub open spec fn resized(self, width: usize, height: usize, scale: usize) -> FractalKernelView {
        let data = self.data.resized(width, height, scale);
        FractalKernelView {
            data,
            frame: if data.size() == self.data.size() {
                self.frame
            } else {
                0
            },
            ..self
        }
    }

    /// Whether `settings` differ from what was last uploaded.
    pub open spec fn is_stale(self, settings: SettingsView) -> bool {
        !self.synced || settings.value_map() != self.old_settings.value_map()
    }
}

/// Whether `after` and `result` are what a rebuild of `before` gives. Where a
/// rebuild is `wanted` or no program exists, `compile` is called on the
/// settings: its program replaces the one in use and the frame counter starts
/// over, or its error is returned and nothing changes.
pub open spec fn is_rebuilt<E, C: Fn(&Settings) -> Result<u32, E>>(
    compile: C,
    before: FractalKernelView,
    wanted: bool,
    settings: Settings,
    after: FractalKernelView,
    result: Result<(), E>,
) -> bool {
    if wanted || before.kernel is None {
        match result {
            Ok(_) => {
                &&& after.kernel matches Some(program)
                &&& call_ensures(compile, (&settings,), Ok::<u32, E>(program))
                &&& after == (FractalKernelView { kernel: after.kernel, frame: 0, ..before })
            },
            Err(error) => call_ensures(compile, (&settings,), Err::<u32, E>(error)) && after
                == before,
        }
    } else {
        result is Ok && after == before
    }
}

/// Whether `after` and `result` are what the change detection gives. Settings
/// without a render scale are refused. Settings that differ from those last
/// uploaded are uploaded, remembered, and start the frame counter over; a
/// refused upload changes nothing. Then the image takes the render scale.
pub open spec fn is_updated<E, U: Fn(&Vec<u8>) -> Result<(), E>>(
    upload: U,
    before: FractalKernelView,
    settings: SettingsView,
    after: FractalKernelView,
    result: Result<(), StepError<E>>,
) -> bool {
    match render_scale_of(settings) {
        None => result matches Err(StepError::RenderScale) && after == before,
        Some(scale) => if before.is_stale(settings) {
            exists|bytes: Vec<u8>|
                {
                    &&& #[trigger] bytes@ == serialized(settings.fields, FIELD_COUNT as int)
                    &&& match result {
                        Ok(_) => {
                            &&& call_ensures(upload, (&bytes,), Ok::<(), E>(()))
                            &&& after == (FractalKernelView {
                                old_settings: settings,
                                synced: true,
                                frame: 0,
                                ..before
                            }).resized(before.data.width, before.data.height, scale)
                        },
                        Err(StepError::Device(error)) => call_ensures(
                            upload,
                            (&bytes,),
                            Err::<(), E>(error),
                        ) && after == before,
                        Err(_) => false,
                    }
                }
        } else {
            result is Ok && after == before.resized(before.data.width, before.data.height, scale)
        },
    }
}

/// Whether `result` is what binding the arguments of `kernel` gives: width,
/// height and frame are bound in this order, up to the first that the device
/// refuses. Without a program nothing is bound.
pub open spec fn is_bound<E, S: Fn(u32, KernelArg, u32) -> Result<(), E>>(
    bind: S,
    kernel: FractalKernelView,
    result: Result<(), StepError<E>>,
) -> bool {
    match kernel.kernel {
        None => result is Ok,
        Some(program) => {
            let size = kernel.data.size();
            if size.0 > u32::MAX || size.1 > u32::MAX {
                result matches Err(StepError::TooLarge)
            } else {
                let width = call_ensures(bind, (program, KernelArg::Width, size.0 as u32), Ok::<(), E>(()));
                let height = call_ensures(bind, (program, KernelArg::Height, size.1 as u32), Ok::<(), E>(()));
                let frame = call_ensures(bind, (program, KernelArg::Frame, kernel.frame), Ok::<(), E>(()));
                match result {
                    Ok(_) => width && height && frame,
                    Err(StepError::Device(error)) => {
                        ||| call_ensures(
                            bind,
                            (program, KernelArg::Width, size.0 as u32),
                            Err::<(), E>(error),
                        )
                        ||| width && call_ensures(
                            bind,
                            (program, KernelArg::Height, size.1 as u32),
                            Err::<(), E>(error),
                        )
                        ||| width && height && call_ensures(
                            bind,
                            (program, KernelArg::Frame, kernel.frame),
                            Err::<(), E>(error),
                        )
                    },
                    Err(_) => false,
                }
            }
        },
    }
}

/// Whether `after` and `result` are what a launch of `before` gives. Without
/// a program nothing happens. With one, the textures are prepared and the
/// kernel is dispatched over as many items as the effective size has pixels;
/// the frame counter goes up only after a dispatch that the device accepted.
pub open spec fn is_launched<
    E,
    A: Fn(usize, usize) -> Result<u32, E>,
    D: Fn(u32, Texture, Texture, u32) -> Result<(), E>,
>(
    allocate: A,
    dispatch: D,
    before: FractalKernelView,
    after: FractalKernelView,
    result: Result<bool, StepError<E>>,
) -> bool {
    match before.kernel {
        None => result matches Ok(false) && after == before,
        Some(program) => {
            let size = before.data.size();
            if size.0 * size.1 > u32::MAX {
                result matches Err(StepError::TooLarge) && after == before
            } else {
                exists|prepared: Result<(Texture, Texture), E>|
                    {
                        &&& #[trigger] is_prepared(allocate, before.data, after.data, prepared)
                        &&& after.kernel == before.kernel
                        &&& after.old_settings == before.old_settings
                        &&& after.synced == before.synced
                        &&& match prepared {
                            Err(error) => result matches Err(StepError::Device(e)) && e == error
                                && after.frame == before.frame,
                            Ok(pair) => match result {
                                Ok(dispatched) => {
                                    &&& dispatched
                                    &&& call_ensures(
                                        dispatch,
                                        (program, pair.0, pair.1, (size.0 * size.1) as u32),
                                        Ok::<(), E>(()),
                                    )
                                    &&& after.frame == next_frame(before.frame)
                                },
                                Err(StepError::Device(error)) => call_ensures(
                                    dispatch,
                                    (program, pair.0, pair.1, (size.0 * size.1) as u32),
                                    Err::<(), E>(error),
                                ) && after.frame == before.frame,
                                Err(_) => false,
                            },
                        }
                    }
            }
        },
    }
}

/// The error of a build that failed.
pub open spec fn build_error_of<E>(build: Result<(), E>) -> Option<E> {
    match build {
        Ok(_) => None,
        Err(error) => Some(error),
    }
}

/// Whether `after` and `result` are what binding and launching `before`
/// gives: the error of the first that fails, else the report of the step.
pub open spec fn is_dispatched<
    E,
    S: Fn(u32, KernelArg, u32) -> Result<(), E>,
    A: Fn(usize, usize) -> Result<u32, E>,
    D: Fn(u32, Texture, Texture, u32) -> Result<(), E>,
>(
    bind: S,
    allocate: A,
    dispatch: D,
    before: FractalKernelView,
    after: FractalKernelView,
    build_error: Option<E>,
    result: Result<StepReport<E>, StepError<E>>,
) -> bool {
    exists|bound: Result<(), StepError<E>>|
        {
            &&& #[trigger] is_bound(bind, before, bound)
            &&& match bound {
                Err(error) => result == Err::<StepReport<E>, StepError<E>>(error) && after == before,
                Ok(_) => exists|launched: Result<bool, StepError<E>>|
                    {
                        &&& #[trigger] is_launched(allocate, dispatch, before, after, launched)
                        &&& match launched {
                            Err(error) => result == Err::<StepReport<E>, StepError<E>>(error),
                            Ok(dispatched) => result == Ok::<StepReport<E>, StepError<E>>(
                                StepReport { build_error, dispatched },
                            ),
                        }
                    },
            }
        }
}

/// Whether `after` and `result` are what the change detection on `before`,
/// then binding and launching, give.
pub open spec fn is_synced<
    E,
    U: Fn(&Vec<u8>) -> Result<(), E>,
    S: Fn(u32, KernelArg, u32) -> Result<(), E>,
    A: Fn(usize, usize) -> Result<u32, E>,
    D: Fn(u32, Texture, Texture, u32) -> Result<(), E>,
>(
    upload: U,
    bind: S,
    allocate: A,
    dispatch: D,
    before: FractalKernelView,
    settings: SettingsView,
    after: FractalKernelView,
    build_error: Option<E>,
    result: Result<StepReport<E>, StepError<E>>,
) -> bool {
    exists|updated: FractalKernelView, update: Result<(), StepError<E>>|
        {
            &&& #[trigger] is_updated(upload, before, settings, updated, update)
            &&& match update {
                Err(error) => result == Err::<StepReport<E>, StepError<E>>(error) && after
                    == updated,
                Ok(_) => is_dispatched(bind, allocate, dispatch, updated, after, build_error, result),
            }
        }
}

/// Whether `after` and `result` are what one step from `before` gives: a
/// rebuild, whose failure is reported and stops nothing; the change
/// detection; the binding of the arguments; the launch. The first of the last
/// three that fails ends the step with its error.
pub open spec fn is_step<
    E,
    C: Fn(&Settings) -> Result<u32, E>,
    U: Fn(&Vec<u8>) -> Result<(), E>,
    S: Fn(u32, KernelArg, u32) -> Result<(), E>,
    A: Fn(usize, usize) -> Result<u32, E>,
    D: Fn(u32, Texture, Texture, u32) -> Result<(), E>,
>(
    compile: C,
    upload: U,
    bind: S,
    allocate: A,
    dispatch: D,
    before: FractalKernelView,
    wanted: bool,
    settings: Settings,
    after: FractalKernelView,
    result: Result<StepReport<E>, StepError<E>>,
) -> bool {
    exists|built: FractalKernelView, build: Result<(), E>|
        {
            &&& #[trigger] is_rebuilt(compile, before, wanted, settings, built, build)
            &&& is_synced(
                upload,
                bind,
                allocate,
                dispatch,
                built,
                settings@,
                after,
                build_error_of(build),
                result,
            )
        }
}

/// A resize that leaves the effective size as it is keeps both textures,
/// gives nothing up and keeps the frame counter.
pub proof fn lemma_resize_same_size(kernel: FractalKernelView, width: usize, height: usize, scale: usize)
    requires
        kernel.data.resized(width, height, scale).size() == kernel.data.size(),
    ensures
        kernel.resized(width, height, scale).data.output == kernel.data.output,
        kernel.resized(width, height, scale).data.scratch == kernel.data.scratch,
        kernel.resized(width, height, scale).data.released == kernel.data.released,
        kernel.resized(width, height, scale).frame == kernel.frame,
{
}

/// A resize that changes the effective size gives both textures up and
/// starts the frame counter over.
pub proof fn lemma_resize_other_size(kernel: FractalKernelView, width: usize, height: usize, scale: usize)
    requires
        kernel.data.resized(width, height, scale).size() != kernel.data.size(),
    ensures
        kernel.resized(width, height, scale).data.output is None,
        kernel.resized(width, height, scale).data.scratch is None,
        kernel.resized(width, height, scale).data.released == kernel.data.given_up(),
        kernel.resized(width, height, scale).frame == 0,
{
}

/// A resize done twice is a resize done once.
pub proof fn lemma_resize_twice(kernel: FractalKernelView, width: usize, height: usize, scale: usize)
    ensures
        kernel.resized(width, height, scale).resized(width, height, scale) == kernel.resized(
            width,
            height,
            scale,
        ),
{
}

/// Settings that differ from those last uploaded start the frame counter
/// over, and are then the settings last uploaded.
pub proof fn lemma_change_resets_frame<E, U: Fn(&Vec<u8>) -> Result<(), E>>(
    upload: U,
    before: FractalKernelView,
    settings: SettingsView,
    after: FractalKernelView,
    result: Result<(), StepError<E>>,
)
    requires
        is_updated(upload, before, settings, after, result),
        before.is_stale(settings),
        result is Ok,
    ensures
        after.frame == 0,
        !after.is_stale(settings),
{
}

/// Settings that are those last uploaded, at a render scale that leaves the
/// effective size as it is, change nothing but the size asked for; the launch
/// that follows counts one frame more.
pub proof fn lemma_no_change_counts_on<
    E,
    U: Fn(&Vec<u8>) -> Result<(), E>,
    A: Fn(usize, usize) -> Result<u32, E>,
    D: Fn(u32, Texture, Texture, u32) -> Result<(), E>,
>(
    upload: U,
    allocate: A,
    dispatch: D,
    before: FractalKernelView,
    settings: SettingsView,
    updated: FractalKernelView,
    update: Result<(), StepError<E>>,
    after: FractalKernelView,
)
    requires
        is_updated(upload, before, settings, updated, update),
        update is Ok,
        !before.is_stale(settings),
        updated.data.size() == before.data.size(),
        is_launched(allocate, dispatch, updated, after, Ok(true)),
    ensures
        updated.frame == before.frame,
        updated.data.output == before.data.output,
        updated.data.scratch == before.data.scratch,
        after.frame == next_frame(before.frame),
{
}

/// The controller of the kernel.
#[derive(Debug)]
pub struct FractalKernel {
    kernel: Option<u32>,
    data: KernelImage,
    old_settings: Settings,
    synced: bool,
    frame: u32,
}

impl View for FractalKernel {
    type V = FractalKernelView;

    closed spec fn view(&self) -> FractalKernelView {
        FractalKernelView {
            kernel: self.kernel,
            data: self.data@,
            old_settings: self.old_settings@,
            synced: self.synced,
            frame: self.frame,
        }
    }
}

impl FractalKernel {
    /// Whether the kernel is well formed.
    pub open spec fn wf(&self) -> bool {
        self@.wf()
    }

    /// A kernel for an image of the given size, without a program, with
    /// nothing uploaded and no frame accumulated.
    pub fn create(width: usize, height: usize, interop: bool, settings: &Settings) -> (kernel:
        FractalKernel)
        requires
            settings.wf(),
        ensures
            kernel.wf(),
            kernel@ == (FractalKernelView {
                kernel: None,
                data: KernelImageView {
                    width,
                    height,
                    scale: 1,
                    interop,
                    scratch: None,
                    output: None,
                    released: Seq::empty(),
                },
                old_settings: settings@,
                synced: false,
                frame: 0,
            }),
    {
        FractalKernel {
            kernel: None,
            data: KernelImage::new(width, height, interop),
            old_settings: settings.clone(),
            synced: false,
            frame: 0,
        }
    }

    /// Builds the program where a rebuild was asked for through the
    /// settings, is forced, or no program exists. The request in the settings
    /// is cleared either way. A build that fails leaves the program in use.
    pub fn rebuild<E, C: Fn(&Settings) -> Result<u32, E>>(
        &mut self,
        settings: &mut Settings,
        force_rebuild: bool,
        compile: &C,
    ) -> (result: Result<(), E>)
        requires
            forall|s: &Settings| call_requires(*compile, (s,)),
        ensures
            final(settings)@.fields == old(settings)@.fields,
            final(settings)@.constants == old(settings)@.constants,
            !final(settings)@.rebuild,
            is_rebuilt(
                *compile,
                old(self)@,
                old(settings)@.rebuild || force_rebuild,
                *final(settings),
                final(self)@,
                result,
            ),
    {
        let asked = settings.check_rebuild();
        if asked || self.kernel.is_none() || force_rebuild {
            match compile(settings) {
                Ok(program) => {
                    self.kernel = Some(program);
                    self.frame = 0;
                    Ok(())
                },
                Err(error) => Err(error),
            }
        } else {
            Ok(())
        }
    }

    /// Changes the size asked for. The frame counter starts over where the
    /// effective size changes, and only there.
    pub fn resize(&mut self, width: usize, height: usize)
        requires
            old(self).wf(),
        ensures
            final(self).wf(),
            final(self)@ == old(self)@.resized(width, height, old(self)@.data.scale),
    {
        let scale = self.data.scale;
        if self.data.resize(width, height, scale) {
            self.frame = 0;
        }
    }

    /// The change detection: uploads settings that differ from those last
    /// uploaded and starts the frame counter over, then gives the image the
    /// render scale of the settings.
    pub fn update<E, U: Fn(&Vec<u8>) -> Result<(), E>>(&mut self, settings: &Settings, upload: &U) -> (result:
        Result<(), StepError<E>>)
        requires
            old(self).wf(),
            settings.wf(),
            forall|bytes: &Vec<u8>| call_requires(*upload, (bytes,)),
        ensures
            final(self).wf(),
            is_updated(*upload, old(self)@, settings@, final(self)@, result),
    {
        let scale: usize = match settings.get("render_scale") {
            Some(SettingValue::U32(scale)) => *scale as usize,
            _ => {
                return Err(StepError::RenderScale);
            },
        };
        if !self.synced || !(*settings == self.old_settings) {
            let bytes = settings.serialize_binary();
            let uploaded = upload(&bytes);
            match uploaded {
                Ok(_) => {
                    assert(uploaded->Ok_0 == ());
                },
                Err(error) => {
                    return Err(StepError::Device(error));
                },
            }
            self.old_settings = settings.clone();
            self.synced = true;
            self.frame = 0;
        }
        let width = self.data.width;
        let height = self.data.height;
        if self.data.resize(width, height, scale) {
            self.frame = 0;
        }
        Ok(())
    }

    /// Binds the effective width, the effective height and the frame counter
    /// as arguments of the program.
    pub fn set_args<E, S: Fn(u32, KernelArg, u32) -> Result<(), E>>(&self, bind: &S) -> (result: Result<
        (),
        StepError<E>,
    >)
        requires
            self.wf(),
            forall|program: u32, arg: KernelArg, value: u32|
                call_requires(*bind, (program, arg, value)),
        ensures
            is_bound(*bind, self@, result),
    {
        let program = match self.kernel {
            Some(program) => program,
            None => {
                return Ok(());
            },
        };
        let (width, height) = self.data.size();
        if width > u32::MAX as usize || height > u32::MAX as usize {
            return Err(StepError::TooLarge);
        }
        let bound = bind(program, KernelArg::Width, width as u32);
        match bound {
            Ok(_) => {
                assert(bound->Ok_0 == ());
            },
            Err(error) => {
                return Err(StepError::Device(error));
            },
        }
        let bound = bind(program, KernelArg::Height, height as u32);
        match bound {
            Ok(_) => {
                assert(bound->Ok_0 == ());
            },
            Err(error) => {
                return Err(StepError::Device(error));
            },
        }
        let bound = bind(program, KernelArg::Frame, self.frame);
        match bound {
            Ok(_) => {
                assert(bound->Ok_0 == ());
                Ok(())
            },
            Err(error) => Err(StepError::Device(error)),
        }
    }

    /// Prepares the textures and dispatches the program over the effective
    /// size. Returns whether the kernel was dispatched.
    pub fn launch<
        E,
        A: Fn(usize, usize) -> Result<u32, E>,
        D: Fn(u32, Texture, Texture, u32) -> Result<(), E>,
    >(&mut self, allocate: &A, dispatch: &D) -> (result: Result<bool, StepError<E>>)
        requires
            old(self).wf(),
            forall|width: usize, height: usize| call_requires(*allocate, (width, height)),
            forall|program: u32, output: Texture, scratch: Texture, total: u32|
                call_requires(*dispatch, (program, output, scratch, total)),
        ensures
            final(self).wf(),
            is_launched(*allocate, *dispatch, old(self)@, final(self)@, result),
    {
        let program = match self.kernel {
            Some(program) => program,
            None => {
                return Ok(false);
            },
        };
        let (width, height) = self.data.size();
        let total: u32 = match pixel_count(width, height) {
            Some(total) => total,
            None => {
                return Err(StepError::TooLarge);
            },
        };
        let prepared = self.data.data(allocate);
        let ghost witness = prepared;
        match prepared {
            Err(error) => {
                assert(is_prepared(*allocate, old(self)@.data, self@.data, witness));
                Err(StepError::Device(error))
            },
            Ok(pair) => {
                let dispatched = dispatch(program, pair.0, pair.1, total);
                match dispatched {
                    Ok(_) => {
                        assert(dispatched->Ok_0 == ());
                        if self.frame < u32::MAX {
                            self.frame = self.frame + 1;
                        }
                        assert(is_prepared(*allocate, old(self)@.data, self@.data, witness));
                        Ok(true)
                    },
                    Err(error) => {
                        assert(is_prepared(*allocate, old(self)@.data, self@.data, witness));
                        Err(StepError::Device(error))
                    },
                }
            },
        }
    }

    /// One step of rendering: rebuild, change detection, binding of the
    /// arguments, launch. A build that fails is reported and the step goes on
    /// with the program built before; without any program nothing is
    /// dispatched. An error of the device in one of the later parts ends the
    /// step.
    pub fn run<
        E,
        C: Fn(&Settings) -> Result<u32, E>,
        U: Fn(&Vec<u8>) -> Result<(), E>,
        S: Fn(u32, KernelArg, u32) -> Result<(), E>,
        A: Fn(usize, usize) -> Result<u32, E>,
        D: Fn(u32, Texture, Texture, u32) -> Result<(), E>,
    >(
        &mut self,
        settings: &mut Settings,
        force_rebuild: bool,
        compile: &C,
        upload: &U,
        bind: &S,
        allocate: &A,
        dispatch: &D,
    ) -> (result: Result<StepReport<E>, StepError<E>>)
        requires
            old(self).wf(),
            old(settings).wf(),
            forall|s: &Settings| call_requires(*compile, (s,)),
            forall|bytes: &Vec<u8>| call_requires(*upload, (bytes,)),
            forall|program: u32, arg: KernelArg, value: u32|
                call_requires(*bind, (program, arg, value)),
            forall|width: usize, height: usize| call_requires(*allocate, (width, height)),
            forall|program: u32, output: Texture, scratch: Texture, total: u32|
                call_requires(*dispatch, (program, output, scratch, total)),
        ensures
            final(self).wf(),
            final(settings)@.fields == old(settings)@.fields,
            final(settings)@.constants == old(settings)@.constants,
            !final(settings)@.rebuild,
            is_step(
                *compile,
                *upload,
                *bind,
                *allocate,
                *dispatch,
                old(self)@,
                old(settings)@.rebuild || force_rebuild,
                *final(settings),
                final(self)@,
                result,
            ),
    {
        let build = self.rebuild(settings, force_rebuild, compile);
        let ghost built = self@;
        let ghost build_seen = build;
        let build_error = match build {
            Ok(_) => None,
            Err(error) => Some(error),
        };
        let update = self.update(settings, upload);
        let ghost updated = self@;
        let ghost update_seen = update;
        match update {
            Err(error) => {
                proof {
                    assert(is_updated(*upload, built, settings@, updated, update_seen));
                    assert(is_rebuilt(
                        *compile,
                        old(self)@,
                        old(settings)@.rebuild || force_rebuild,
                        *settings,
                        built,
                        build_seen,
                    ));
                }
                return Err(error);
            },
            Ok(_) => {},
        }
        let bound = self.set_args(bind);
        let ghost bound_seen = bound;
        match bound {
            Err(error) => {
                proof {
                    assert(is_bound(*bind, updated, bound_seen));
                    assert(is_dispatched(
                        *bind,
                        *allocate,
                        *dispatch,
                        updated,
                        self@,
                        build_error,
                        Err::<StepReport<E>, StepError<E>>(error),
                    ));
                    assert(is_updated(*upload, built, settings@, updated, update_seen));
                    assert(is_rebuilt(
                        *compile,
                        old(self)@,
                        old(settings)@.rebuild || force_rebuild,
                        *settings,
                        built,
                        build_seen,
                    ));
                }
                return Err(error);
            },
            Ok(_) => {},
        }
        let launched = self.launch(allocate, dispatch);
        let ghost launched_seen = launched;
        let result = match launched {
            Err(error) => Err(error),
            Ok(dispatched) => Ok(StepReport { build_error, dispatched }),
        };
        proof {
            assert(is_launched(*allocate, *dispatch, updated, self@, launched_seen));
            assert(is_bound(*bind, updated, bound_seen));
            assert(is_dispatched(*bind, *allocate, *dispatch, updated, self@, build_error, result));
            assert(is_updated(*upload, built, settings@, updated, update_seen));
            assert(is_rebuilt(
                *compile,
                old(self)@,
                old(settings)@.rebuild || force_rebuild,
                *settings,
                built,
                build_seen,
            ));
        }
        result
    }

    /// The output texture, allocated where it was missing.
    pub fn texture<E, A: Fn(usize, usize) -> Result<u32, E>>(&mut self, allocate: &A) -> (result: Result<
        Texture,
        E,
    >)
        requires
            old(self).wf(),
            forall|width: usize, height: usize| call_requires(*allocate, (width, height)),
        ensures
            final(self).wf(),
            final(self)@ == (FractalKernelView { data: final(self)@.data, ..old(self)@ }),
            exists|prepared: Result<(Texture, Texture), E>| #[trigger]
                is_prepared(*allocate, old(self)@.data, final(self)@.data, prepared) && match (
                    prepared,
                    result,
                ) {
                    (Ok(pair), Ok(output)) => output == pair.0,
                    (Err(refused), Err(error)) => error == refused,
                    _ => false,
                },
    {
        let prepared = self.data.data(allocate);
        let ghost witness = prepared;
        assert(is_prepared(*allocate, old(self)@.data, self@.data, witness));
        match prepared {
            Ok(pair) => Ok(pair.0),
            Err(error) => Err(error),
        }
    }

    /// The picture; see [`KernelImage::download`].
    pub fn download<E, R: Fn(Texture) -> Result<Vec<u8>, E>>(&self, read: &R) -> (result: Result<
        Download,
        E,
    >)
        requires
            forall|texture: Texture| call_requires(*read, (texture,)),
        ensures
            match self@.data.output {
                None => result matches Ok(Download::Empty),
                Some(texture) => if self@.data.interop {
                    result matches Ok(Download::Interop(shared)) && shared == texture
                } else {
                    match result {
                        Ok(Download::HostBuffer { pixels, width, height }) => {
                            &&& width == texture.width
                            &&& height == texture.height
                            &&& call_ensures(*read, (texture,), Ok::<Vec<u8>, E>(pixels))
                        },
                        Ok(_) => false,
                        Err(error) => call_ensures(*read, (texture,), Err::<Vec<u8>, E>(error)),
                    }
                },
            },
    {
        self.data.download(read)
    }

    /// The textures given up since the last call; see
    /// [`KernelImage::take_released`].
    pub fn take_released(&mut self) -> (released: Vec<Texture>)
        ensures
            released@ == old(self)@.data.released,
            final(self)@ == (FractalKernelView {
                data: KernelImageView { released: Seq::empty(), ..old(self)@.data },
                ..old(self)@
            }),
    {
        self.data.take_released()
    }

    /// The number of frames accumulated since the picture last changed.
    pub fn frame(&self) -> (frame: u32)
        ensures
            frame == self@.frame,
    {
        self.frame
    }
}

/// The number of pixels of a picture, where it fits 32 bits.
fn pixel_count(width: usize, height: usize) -> (total: Option<u32>)
    ensures
        total == if width * height > u32::MAX {
            None
        } else {
            Some((width * height) as u32)
        },
{
    if width == 0 || height == 0 {
        assert(width * height == 0) by (nonlinear_arith)
            requires
                width == 0 || height == 0,
        ;
        return Some(0);
    }
    if width > u32::MAX as usize || height > u32::MAX as usize {
        assert(width * height > u32::MAX) by (nonlinear_arith)
            requires
                width >= 1,
                height >= 1,
                width > u32::MAX || height > u32::MAX,
        ;
        return None;
    }
    assert(width * height <= u32::MAX * u32::MAX) by (nonlinear_arith)
        requires
            width <= u32::MAX,
            height <= u32::MAX,
    ;
    let product: u64 = (width as u64) * (height as u64);
    if product > u32::MAX as u64 {
        None
    } else {
        Some(product as u32)
    }
}

} // verus!
