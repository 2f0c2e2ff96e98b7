//! The image pool of a surface: its images, their states, and the protocol
//! by which an application acquires, locks and presents them.
//!
//! The pool decides; it performs no platform call. `present_image` hands back
//! what is to be submitted, and the platform layer reports what happened
//! through `submitted`, `release_image` and `connection_lost`.
use crate::align::{lemma_round_up_is_least_multiple, round_up, Align};
use crate::buffer::{overwritten, resized, zeros, Buffer, Layout};
use crate::notifier::ReadyNotifier;
use crate::{default_image_info, Config, Error, Format, ImageInfo};
use vstd::arithmetic::power2::is_pow2;
use vstd::prelude::*;

verus! {

/// The platform that displays the images.
#[derive(Debug, Clone, Copy, PartialEq, Eq, Hash, Structural)]
pub enum Backend {
    /// A Wayland compositor: shared-memory buffers, released asynchronously.
    Wayland,
    /// An X11 server: one image, copied during presentation.
    X11,
    /// Windows GDI: one image, copied during presentation.
    Windows,
    /// OpenGL on macOS: one image, uploaded during presentation.
    Cgl,
}

/// The state of one swapchain image.
#[derive(Debug, Clone, Copy, PartialEq, Eq, Hash, Structural)]
pub enum SlotState {
    /// No storage yet: the surface was never configured.
    Uninitialized,
    /// Available to the application.
    Free,
    /// Being written by the application, which holds its storage.
    Locked,
    /// Handed to the platform, which has not released it yet.
    Presenting,
}

/// What a blocking acquisition does next.
#[derive(Debug, Clone, Copy, PartialEq, Eq, Hash, Structural)]
pub enum WaitStep {
    /// The image at this index is free.
    Image(usize),
    /// No image is free: wait for a completion event, then ask again.
    Blocked,
    /// The connection is lost: no image will ever be available.
    Lost,
}

/// An image on its way to the platform, in the integer types that the
/// platform calls take.
#[derive(Debug, Clone, Copy, PartialEq, Eq)]
pub struct Submission {
    /// The index of the image.
    pub index: usize,
    /// The width in pixels.
    pub width: i32,
    /// The height in pixels.
    pub height: i32,
    /// The offset between rows, in bytes.
    pub stride: i32,
    /// The size of the image's storage, in bytes.
    pub size: usize,
    /// The pixel format.
    pub format: Format,
}

/// The formats that a backend accepts, in the order in which it lists them.
pub open spec fn formats_of(backend: Backend) -> Seq<Format> {
    match backend {
        Backend::Wayland | Backend::Windows => seq![Format::Argb8888],
        Backend::X11 | Backend::Cgl => seq![Format::Argb8888, Format::Xrgb8888],
    }
}

impl Backend {
    /// Whether the backend accepts `format`.
    pub open spec fn spec_supports(self, format: Format) -> bool {
        match self {
            Backend::Wayland | Backend::Windows => format == Format::Argb8888,
            Backend::X11 | Backend::Cgl => true,
        }
    }

    /// Whether the backend reports the end of a presentation later, by an
    /// event. The others are done with an image when the submission returns.
    pub open spec fn spec_signals_completion(self) -> bool {
        self == Backend::Wayland
    }

    /// Whether contexts of this backend keep a ready callback.
    pub open spec fn spec_takes_ready_cb(self) -> bool {
        self == Backend::Wayland || self == Backend::X11
    }

    /// The number of images of a surface made with `config`.
    pub open spec fn spec_image_count(self, config: Config) -> usize {
        if self == Backend::Wayland {
            config.image_count
        } else {
            1
        }
    }

    /// The row alignment of a surface made with `config`. Windows takes
    /// rows without padding, whatever the configuration says.
    pub open spec fn spec_scanline_align(self, config: Config) -> usize {
        if self == Backend::Windows {
            1
        } else {
            config.scanline_align
        }
    }

    /// The storage alignment of a surface made with `config`.
    pub open spec fn spec_buffer_align(self, config: Config) -> usize {
        if self == Backend::Windows {
            1
        } else {
            config.align
        }
    }

    /// The backend of a window on a Unix display server, from the native
    /// handles that the window has: Wayland for a window with a Wayland
    /// display and surface; X11 for one with neither of these and with an
    /// X display and window; none for any other combination.
    pub fn of_unix_handles(
        wayland_display: bool,
        wayland_surface: bool,
        xlib_display: bool,
        xlib_window: bool,
    ) -> (r: Option<Backend>)
        ensures
            r == Some(Backend::Wayland) <==> wayland_display && wayland_surface,
            r == Some(Backend::X11) <==> !wayland_display && !wayland_surface && xlib_display
                && xlib_window,
            r is Some ==> r == Some(Backend::Wayland) || r == Some(Backend::X11),
    {
        if wayland_display && wayland_surface {
            Some(Backend::Wayland)
        } else if !wayland_display && !wayland_surface && xlib_display && xlib_window {
            Some(Backend::X11)
        } else {
            None
        }
    }

    /// Whether the backend accepts `format`.
    #[verifier::when_used_as_spec(spec_supports)]
    pub fn supports(self, format: Format) -> (b: bool)
        ensures
            b == self.spec_supports(format),
            b <==> formats_of(self).contains(format),
    {
        proof {
            match self {
                Backend::Wayland | Backend::Windows => {
                    assert(formats_of(self)[0] == Format::Argb8888);
                },
                Backend::X11 | Backend::Cgl => {
                    assert(formats_of(self)[0] == Format::Argb8888);
                    assert(formats_of(self)[1] == Format::Xrgb8888);
                },
            }
        }
        match self {
            Backend::Wayland | Backend::Windows => format == Format::Argb8888,
            Backend::X11 | Backend::Cgl => true,
        }
    }

    /// The formats that the backend accepts.
    pub fn supported_formats(self) -> (v: Vec<Format>)
        ensures
            v@ == formats_of(self),
    {
        let mut v: Vec<Format> = Vec::new();
        v.push(Format::Argb8888);
        match self {
            Backend::Wayland | Backend::Windows => {},
            Backend::X11 | Backend::Cgl => {
                v.push(Format::Xrgb8888);
            },
        }
        assert(v@ =~= formats_of(self));
        v
    }

    /// Whether the backend reports the end of a presentation by an event.
    #[verifier::when_used_as_spec(spec_signals_completion)]
    pub fn signals_completion(self) -> (b: bool)
        ensures
            b == self.spec_signals_completion(),
    {
        self == Backend::Wayland
    }

    /// Whether contexts of this backend keep a ready callback.
    #[verifier::when_used_as_spec(spec_takes_ready_cb)]
    pub fn takes_ready_cb(self) -> (b: bool)
        ensures
            b == self.spec_takes_ready_cb(),
    {
        self == Backend::Wayland || self == Backend::X11
    }
}

/// The stride of an image `width` pixels wide: four bytes per pixel, rounded
/// up to the row alignment.
pub open spec fn stride_for(width: u32, scanline_align: int) -> int {
    round_up(4 * width, scanline_align)
}

/// The image info that a backend accepts for an extent and a format, or the
/// reason why it accepts none. Widths, heights and strides travel as `i32`;
/// the size of an image must make a layout with the storage alignment.
pub open spec fn geometry_check(
    backend: Backend,
    scanline_align: int,
    buffer_align: int,
    extent: [u32; 2],
    format: Format,
) -> Result<ImageInfo, Error> {
    let stride = stride_for(extent[0], scanline_align);
    if !backend.spec_supports(format) {
        Err(Error::UnsupportedFormat)
    } else if extent[0] > i32::MAX || extent[1] > i32::MAX || stride > i32::MAX || stride
        * extent[1] + buffer_align - 1 > isize::MAX {
        Err(Error::Overflow)
    } else {
        Ok(ImageInfo { extent, stride: stride as usize, format })
    }
}

/// Whether some image is locked.
pub open spec fn any_locked(slots: Seq<SlotState>) -> bool {
    exists|i: int| 0 <= i < slots.len() && #[trigger] slots[i] == SlotState::Locked
}

/// Whether `i` is the lowest index of a free image.
pub open spec fn is_first_free(slots: Seq<SlotState>, i: int) -> bool {
    &&& 0 <= i < slots.len()
    &&& slots[i] == SlotState::Free
    &&& forall|j: int| 0 <= j < i ==> #[trigger] slots[j] != SlotState::Free
}

/// The lowest index of a free image, if any image is free.
pub open spec fn first_free(slots: Seq<SlotState>) -> Option<usize> {
    if exists|i: int| is_first_free(slots, i) {
        Some((choose|i: int| is_first_free(slots, i)) as usize)
    } else {
        None
    }
}

/// The mathematical state of a surface's image pool.
pub struct PoolState {
    /// The platform.
    pub backend: Backend,
    /// The state of each image.
    pub slots: Seq<SlotState>,
    /// The bytes of each image that the pool holds; empty while the image
    /// is uninitialized or locked.
    pub bytes: Seq<Seq<u8>>,
    /// Whether the ready notifier is armed.
    pub armed: bool,
    /// The geometry of the images.
    pub info: ImageInfo,
    /// The row alignment in bytes.
    pub scanline_align: int,
    /// The storage alignment in bytes.
    pub buffer_align: int,
    /// Whether the display connection was lost.
    pub lost: bool,
}

impl PoolState {
    /// Whether the surface was configured at least once.
    pub open spec fn configured(self) -> bool {
        self.info.extent[0] != 0
    }

    /// The size in bytes of each image.
    pub open spec fn image_size(self) -> int {
        self.info.stride * self.info.extent[1]
    }

    /// What holds of every pool: one byte sequence per image and either no
    /// image has storage, or all have storage of the size that the image
    /// info gives, but for the locked ones, whose storage is with the holder
    /// of the lock; and the image info is one that the backend accepts.
    pub open spec fn wf(self) -> bool {
        &&& self.slots.len() == self.bytes.len()
        &&& is_pow2(self.scanline_align)
        &&& is_pow2(self.buffer_align)
        &&& if self.configured() {
            &&& self.info.extent[1] != 0
            &&& geometry_check(
                self.backend,
                self.scanline_align,
                self.buffer_align,
                self.info.extent,
                self.info.format,
            ) == Ok::<ImageInfo, Error>(self.info)
            &&& forall|i: int|
                0 <= i < self.slots.len() ==> #[trigger] self.slots[i] != SlotState::Uninitialized
            &&& forall|i: int|
                0 <= i < self.bytes.len() ==> (#[trigger] self.bytes[i]).len() == if self.slots[i]
                    == SlotState::Locked {
                    0
                } else {
                    self.image_size()
                }
        } else {
            &&& self.info == default_image_info()
            &&& forall|i: int|
                0 <= i < self.slots.len() ==> #[trigger] self.slots[i] == SlotState::Uninitialized
            &&& forall|i: int| 0 <= i < self.bytes.len() ==> (#[trigger] self.bytes[i]).len() == 0
        }
    }

    /// The geometry of a configured pool: the extent is not empty, the
    /// stride is the least multiple of the row alignment that holds a row,
    /// and extent, stride and image size fit the integers that carry them.
    pub proof fn lemma_geometry(self)
        requires
            self.wf(),
            self.configured(),
        ensures
            0 < self.info.extent[0] <= i32::MAX,
            0 < self.info.extent[1] <= i32::MAX,
            self.info.stride == stride_for(self.info.extent[0], self.scanline_align),
            4 * self.info.extent[0] <= self.info.stride <= i32::MAX,
            self.info.stride < 4 * self.info.extent[0] + self.scanline_align,
            self.info.stride as int % self.scanline_align == 0,
            0 < self.image_size() <= isize::MAX,
            self.backend.spec_supports(self.info.format),
    {
        reveal(is_pow2);
        lemma_round_up_is_least_multiple(4 * self.info.extent[0], self.scanline_align);
        let stride = self.info.stride as int;
        let h = self.info.extent[1] as int;
        assert(stride * h > 0) by (nonlinear_arith)
            requires
                stride > 0,
                h > 0,
        ;
    }

    /// The pool of a new surface: every image uninitialized.
    pub open spec fn initial(backend: Backend, config: Config) -> PoolState {
        PoolState {
            backend,
            slots: Seq::new(
                backend.spec_image_count(config) as nat,
                |i: int| SlotState::Uninitialized,
            ),
            bytes: Seq::new(backend.spec_image_count(config) as nat, |i: int| Seq::<u8>::empty()),
            armed: false,
            info: default_image_info(),
            scanline_align: backend.spec_scanline_align(config) as int,
            buffer_align: backend.spec_buffer_align(config) as int,
            lost: false,
        }
    }

    /// A change of extent and format. It is refused while an image is
    /// locked, and for a geometry that the backend does not accept. Else
    /// every image gets storage of the new size, keeping the bytes that fit,
    /// and uninitialized images become free. The notifier stays as it is.
    pub open spec fn reconfigure(self, extent: [u32; 2], format: Format) -> Result<
        PoolState,
        Error,
    > {
        if any_locked(self.slots) {
            Err(Error::InvalidState)
        } else {
            match geometry_check(
                self.backend,
                self.scanline_align,
                self.buffer_align,
                extent,
                format,
            ) {
                Err(e) => Err(e),
                Ok(info) => Ok(
                    PoolState {
                        slots: Seq::new(
                            self.slots.len(),
                            |i: int|
                                if self.slots[i] == SlotState::Uninitialized {
                                    SlotState::Free
                                } else {
                                    self.slots[i]
                                },
                        ),
                        bytes: Seq::new(
                            self.bytes.len(),
                            |i: int| resized(self.bytes[i], (info.stride * extent[1]) as nat),
                        ),
                        info,
                        ..self
                    },
                ),
            }
        }
    }

    /// A poll: the lowest free image; if there is none, the notifier is armed.
    pub open spec fn poll(self) -> (PoolState, Option<usize>) {
        match first_free(self.slots) {
            Some(i) => (self, Some(i)),
            None => (PoolState { armed: true, ..self }, None),
        }
    }

    /// One step of a blocking acquisition.
    pub open spec fn wait(self) -> WaitStep {
        if self.lost {
            WaitStep::Lost
        } else {
            match first_free(self.slots) {
                Some(i) => WaitStep::Image(i),
                None => WaitStep::Blocked,
            }
        }
    }

    /// Locking image `i`: only a free image can be locked. Its bytes leave
    /// the pool and go to the holder of the lock.
    pub open spec fn lock(self, i: int) -> Result<(PoolState, Seq<u8>), Error> {
        if self.slots[i] == SlotState::Free {
            Ok(
                (
                    PoolState {
                        slots: self.slots.update(i, SlotState::Locked),
                        bytes: self.bytes.update(i, Seq::<u8>::empty()),
                        ..self
                    },
                    self.bytes[i],
                ),
            )
        } else {
            Err(Error::ImageBusy)
        }
    }

    /// Unlocking image `i` with the bytes `data` in storage aligned to
    /// `align`: the image must be locked, and the storage of the size and
    /// the alignment that the pool gives its images. The image is free
    /// then and holds `data`.
    pub open spec fn unlock(self, i: int, data: Seq<u8>, align: int) -> Result<PoolState, Error> {
        if 0 <= i < self.slots.len() && self.slots[i] == SlotState::Locked && data.len()
            == self.image_size() && align == self.buffer_align {
            Ok(
                PoolState {
                    slots: self.slots.update(i, SlotState::Free),
                    bytes: self.bytes.update(i, data),
                    ..self
                },
            )
        } else {
            Err(Error::InvalidState)
        }
    }

    /// Presenting image `i`: only a free image of a live connection can be
    /// presented.
    pub open spec fn present(self, i: int) -> Result<PoolState, Error> {
        if self.lost {
            Err(Error::ConnectionLost)
        } else if self.slots[i] == SlotState::Free {
            Ok(PoolState { slots: self.slots.update(i, SlotState::Presenting), ..self })
        } else {
            Err(Error::InvalidState)
        }
    }

    /// What is handed to the platform for image `i`.
    pub open spec fn submission(self, i: int) -> Submission {
        Submission {
            index: i as usize,
            width: self.info.extent[0] as i32,
            height: self.info.extent[1] as i32,
            stride: self.info.stride as i32,
            size: self.image_size() as usize,
            format: self.info.format,
        }
    }

    /// The platform released image `i`. An image in presentation becomes
    /// free, and the notifier fires if it was armed. Any other image stays as
    /// it is, and nothing fires.
    pub open spec fn release(self, i: int) -> (PoolState, bool) {
        if self.slots[i] == SlotState::Presenting {
            (
                PoolState { slots: self.slots.update(i, SlotState::Free), armed: false, ..self },
                self.armed,
            )
        } else {
            (self, false)
        }
    }

    /// The submission of image `i` returned, with success or not. The
    /// result is the pool, whether the notifier fires, and what is reported.
    /// Nothing changes unless the image is in presentation. A failed
    /// submission releases the image and is reported. After a successful
    /// one, a backend that signals completion keeps the image until the
    /// event; the others release it at once.
    pub open spec fn submitted(self, i: int, ok: bool) -> (PoolState, bool, Result<(), Error>) {
        if self.slots[i] != SlotState::Presenting {
            (self, false, Err(Error::InvalidState))
        } else if !ok {
            (self.release(i).0, self.release(i).1, Err(Error::Present))
        } else if self.backend.spec_signals_completion() {
            (self, false, Ok(()))
        } else {
            (self.release(i).0, self.release(i).1, Ok(()))
        }
    }
}

/// A locked image: its storage, taken out of the pool for the holder to
/// write. It goes back by `Surface::unlock_image`; an image whose storage
/// is dropped instead stays locked.
#[derive(Debug)]
pub struct LockedImage {
    index: usize,
    data: Buffer,
}

impl View for LockedImage {
    type V = Seq<u8>;

    closed spec fn view(&self) -> Seq<u8> {
        self.data@
    }
}

impl LockedImage {
    /// The index of the image in its pool.
    pub closed spec fn spec_index(&self) -> usize {
        self.index
    }

    /// The alignment of the storage.
    pub closed spec fn spec_align(&self) -> usize {
        self.data.spec_align()
    }

    /// The index of the image in its pool.
    #[verifier::when_used_as_spec(spec_index)]
    pub fn index(&self) -> (i: usize)
        ensures
            i == self.spec_index(),
    {
        self.index
    }

    /// The number of bytes.
    pub fn len(&self) -> (n: usize)
        ensures
            n == self@.len(),
    {
        self.data.len()
    }

    /// The bytes, to read.
    pub fn as_slice(&self) -> (s: &[u8])
        ensures
            s@ == self@,
    {
        self.data.as_slice()
    }

    /// The bytes, to write in place. What the view holds when it is given
    /// up is what the image holds from then on.
    pub fn as_mut_slice(&mut self) -> (s: &mut [u8])
        ensures
            s@ == old(self)@,
            final(self)@ == final(s)@,
            final(self).spec_index() == old(self).spec_index(),
            final(self).spec_align() == old(self).spec_align(),
    {
        self.data.as_mut_slice()
    }

    /// Copies `src` into the image, starting at byte `offset`; nothing
    /// else changes.
    pub fn write(&mut self, offset: usize, src: &[u8])
        requires
            offset + src@.len() <= old(self)@.len(),
        ensures
            final(self)@ == overwritten(old(self)@, offset as int, src@),
            final(self).spec_index() == old(self).spec_index(),
            final(self).spec_align() == old(self).spec_align(),
    {
        self.data.write(offset, src);
    }
}

/// A surface: the image pool of one window.
#[derive(Debug)]
pub struct Surface {
    backend: Backend,
    states: Vec<SlotState>,
    /// Empty until the surface is configured; then one buffer per image.
    buffers: Vec<Buffer>,
    notifier: ReadyNotifier,
    image_info: ImageInfo,
    scanline_align: Align,
    buffer_align: usize,
    lost: bool,
}

impl View for Surface {
    type V = PoolState;

    closed spec fn view(&self) -> PoolState {
        PoolState {
            backend: self.backend,
            slots: self.states@,
            bytes: Seq::new(
                self.states@.len(),
                |i: int|
                    if self.buffers@.len() == 0 {
                        Seq::<u8>::empty()
                    } else {
                        self.buffers@[i]@
                    },
            ),
            armed: self.notifier.spec_armed(),
            info: self.image_info,
            scanline_align: self.scanline_align.align(),
            buffer_align: self.buffer_align as int,
            lost: self.lost,
        }
    }
}

impl Surface {
    /// Holds of every surface that this module hands out: its pool is
    /// well-formed, and so is the storage behind it.
    pub open spec fn wf(&self) -> bool {
        self@.wf() && self.storage_wf()
    }

    /// The part of `wf` that speaks of the storage: there is one buffer
    /// for each image of a configured surface and none before, each with
    /// the storage alignment.
    pub closed spec fn storage_wf(&self) -> bool {
        &&& self.scanline_align.wf()
        &&& self.buffers@.len() == if self@.configured() {
            self.states@.len()
        } else {
            0
        }
        &&& forall|i: int|
            0 <= i < self.buffers@.len() ==> (#[trigger] self.buffers@[i]).wf()
                && self.buffers@[i].spec_align() == self.buffer_align
    }

    /// Makes the pool of a surface on `backend`. Fails exactly when one of
    /// the two alignments that the backend takes from `config` is no power
    /// of two.
    pub fn new(backend: Backend, config: &Config) -> (r: Result<Self, Error>)
        ensures
            match r {
                Ok(s) => s.wf() && s@ == PoolState::initial(backend, *config),
                Err(e) => e == Error::InvalidAlignment,
            },
            r is Ok <==> is_pow2(backend.spec_scanline_align(*config) as int) && is_pow2(
                backend.spec_buffer_align(*config) as int,
            ),
    {
        let windows = backend == Backend::Windows;
        let scanline: usize = if windows {
            1
        } else {
            config.scanline_align
        };
        let buffer_align: usize = if windows {
            1
        } else {
            config.align
        };
        let count: usize = if backend == Backend::Wayland {
            config.image_count
        } else {
            1
        };
        let scanline_align = match Align::new(scanline) {
            Ok(a) => a,
            Err(_) => {
                return Err(Error::InvalidAlignment);
            },
        };
        if Align::new(buffer_align).is_err() {
            return Err(Error::InvalidAlignment);
        }
        let mut states: Vec<SlotState> = Vec::new();
        let mut i: usize = 0;
        while i < count
            invariant
                i <= count,
                states@.len() == i,
                forall|k: int| 0 <= k < i ==> #[trigger] states@[k] == SlotState::Uninitialized,
            decreases count - i,
        {
            states.push(SlotState::Uninitialized);
            i += 1;
        }
        let s = Surface {
            backend,
            states,
            buffers: Vec::new(),
            notifier: ReadyNotifier::new(),
            image_info: ImageInfo { extent: [0, 0], stride: 0, format: Format::Argb8888 },
            scanline_align,
            buffer_align,
            lost: false,
        };
        proof {
            let init = PoolState::initial(backend, *config);
            assert(s@.slots =~= init.slots);
            assert(s@.bytes =~= init.bytes);
            assert(s@.info == default_image_info());
        }
        Ok(s)
    }

    /// The platform of the surface.
    pub fn backend(&self) -> (b: Backend)
        ensures
            b == self@.backend,
    {
        self.backend
    }

    /// The formats that the surface can be configured with.
    pub fn supported_formats(&self) -> (v: Vec<Format>)
        ensures
            v@ == formats_of(self@.backend),
    {
        self.backend.supported_formats()
    }

    /// The geometry of the images.
    pub fn image_info(&self) -> (info: ImageInfo)
        ensures
            info == self@.info,
    {
        self.image_info
    }

    /// The number of images.
    pub fn num_images(&self) -> (n: usize)
        ensures
            n == self@.slots.len(),
    {
        self.states.len()
    }

    /// The size in bytes of each image: `stride * height`.
    pub fn image_size(&self) -> (n: usize)
        requires
            self.wf(),
        ensures
            n == self@.image_size(),
    {
        proof {
            if self@.configured() {
                self@.lemma_geometry();
            }
        }
        self.image_info.stride * (self.image_info.extent[1] as usize)
    }

    /// Whether an image keeps its contents until its index comes up again.
    /// Every backend keeps them.
    pub fn does_preserve_image(&self) -> (b: bool)
        ensures
            b,
    {
        true
    }

    /// The state of image `i`.
    pub fn image_state(&self, i: usize) -> (st: SlotState)
        requires
            i < self@.slots.len(),
        ensures
            st == self@.slots[i as int],
    {
        self.states[i]
    }

    /// Whether the ready notifier is armed.
    pub fn ready_armed(&self) -> (b: bool)
        ensures
            b == self@.armed,
    {
        self.notifier.armed()
    }

    /// The bytes of image `i`, to read. The pool holds them while the
    /// image is free or in presentation.
    pub fn image_bytes(&self, i: usize) -> (bytes: &[u8])
        requires
            self.wf(),
            i < self@.slots.len(),
            self@.slots[i as int] == SlotState::Free || self@.slots[i as int]
                == SlotState::Presenting,
        ensures
            bytes@ == self@.bytes[i as int],
            bytes@.len() == self@.image_size(),
    {
        proof {
            assert(self@.configured());
            assert(self@.bytes[i as int].len() == self@.image_size());
        }
        self.buffers[i].as_slice()
    }

    /// Whether some image is locked.
    fn has_locked(&self) -> (b: bool)
        ensures
            b == any_locked(self@.slots),
    {
        let n: usize = self.states.len();
        let mut i: usize = 0;
        while i < n
            invariant
                i <= n,
                n == self.states@.len(),
                forall|j: int| 0 <= j < i ==> #[trigger] self.states@[j] != SlotState::Locked,
            decreases n - i,
        {
            if self.states[i] == SlotState::Locked {
                return true;
            }
            i += 1;
        }
        false
    }

    /// The stride and the storage layout for an extent and a format, or the
    /// reason why the backend accepts none.
    fn plan(&self, extent: [u32; 2], format: Format) -> (r: Result<(usize, Layout), Error>)
        requires
            self.wf(),
        ensures
            match geometry_check(
                self@.backend,
                self@.scanline_align,
                self@.buffer_align,
                extent,
                format,
            ) {
                Ok(info) => r matches Ok((stride, layout)) && layout.wf() && stride == info.stride
                    && layout.spec_size() == info.stride * extent[1] && layout.spec_align()
                    == self@.buffer_align,
                Err(e) => r matches Err(x) && x == e,
            },
    {
        if !self.backend.supports(format) {
            return Err(Error::UnsupportedFormat);
        }
        let limit: usize = i32::MAX as usize;
        let w: usize = extent[0] as usize;
        let h: usize = extent[1] as usize;
        proof {
            reveal(is_pow2);
            lemma_round_up_is_least_multiple(4 * w, self@.scanline_align);
        }
        if w > limit || h > limit {
            return Err(Error::Overflow);
        }
        let row: usize = match w.checked_mul(4) {
            Some(x) => x,
            None => {
                return Err(Error::Overflow);
            },
        };
        let stride: usize = match self.scanline_align.align_up(row) {
            Some(x) => x,
            None => {
                return Err(Error::Overflow);
            },
        };
        if stride > limit {
            return Err(Error::Overflow);
        }
        let size: usize = match stride.checked_mul(h) {
            Some(x) => x,
            None => {
                return Err(Error::Overflow);
            },
        };
        match Layout::from_size_align(size, self.buffer_align) {
            Ok(layout) => Ok((stride, layout)),
            Err(_) => Err(Error::Overflow),
        }
    }

    /// Gives each of `count` images a buffer of zeros.
    fn allocate_all(buffers: &mut Vec<Buffer>, count: usize, layout: Layout)
        requires
            old(buffers)@.len() == 0,
        ensures
            final(buffers)@.len() == count,
            forall|i: int|
                0 <= i < count ==> (#[trigger] final(buffers)@[i]).wf() && final(buffers)@[i]@
                    == zeros(layout.spec_size() as nat) && final(buffers)@[i].spec_align()
                    == layout.spec_align(),
    {
        let mut k: usize = 0;
        while k < count
            invariant
                k <= count,
                buffers@.len() == k,
                forall|i: int|
                    0 <= i < k ==> (#[trigger] buffers@[i]).wf() && buffers@[i]@ == zeros(
                        layout.spec_size() as nat,
                    ) && buffers@[i].spec_align() == layout.spec_align(),
            decreases count - k,
        {
            buffers.push(Buffer::new(layout));
            k += 1;
        }
    }

    /// Resizes every buffer to `size`.
    fn resize_all(buffers: &mut Vec<Buffer>, size: usize, align: usize)
        requires
            size + align - 1 <= isize::MAX,
            forall|i: int|
                0 <= i < old(buffers)@.len() ==> (#[trigger] old(buffers)@[i]).wf() && old(buffers)@[i].spec_align() == align,
        ensures
            final(buffers)@.len() == old(buffers)@.len(),
            forall|i: int|
                0 <= i < old(buffers)@.len() ==> (#[trigger] final(buffers)@[i]).wf() && final(buffers)@[i]@ == resized(old(buffers)@[i]@, size as nat) && final(buffers)@[i].spec_align() == align,
    {
        let n: usize = buffers.len();
        let mut k: usize = 0;
        while k < n
            invariant
                k <= n,
                size + align - 1 <= isize::MAX,
                buffers@.len() == n,
                n == old(buffers)@.len(),
                forall|i: int|
                    0 <= i < n ==> (#[trigger] old(buffers)@[i]).wf() && old(
                        buffers)@[i].spec_align() == align,
                forall|i: int|
                    0 <= i < k ==> (#[trigger] buffers@[i]).wf() && buffers@[i]@ == resized(
                        old(buffers)@[i]@,
                        size as nat,
                    ) && buffers@[i].spec_align() == align,
                forall|i: int| k <= i < n ==> #[trigger] buffers@[i] == old(buffers)@[i],
            decreases n - k,
        {
            buffers[k].resize(size);
            k += 1;
        }
    }

    /// Makes every uninitialized image free.
    fn free_uninitialized(states: &mut Vec<SlotState>)
        ensures
            final(states)@.len() == old(states)@.len(),
            forall|i: int|
                0 <= i < old(states)@.len() ==> #[trigger] final(states)@[i] == if old(states)@[i]
                    == SlotState::Uninitialized {
                    SlotState::Free
                } else {
                    old(states)@[i]
                },
    {
        let n: usize = states.len();
        let mut k: usize = 0;
        while k < n
            invariant
                k <= n,
                states@.len() == n,
                n == old(states)@.len(),
                forall|i: int|
                    0 <= i < k ==> #[trigger] states@[i] == if old(states)@[i]
                        == SlotState::Uninitialized {
                        SlotState::Free
                    } else {
                        old(states)@[i]
                    },
                forall|i: int| k <= i < n ==> #[trigger] states@[i] == old(states)@[i],
            decreases n - k,
        {
            if states[k] == SlotState::Uninitialized {
                states[k] = SlotState::Free;
            }
            k += 1;
        }
    }

    /// Changes the extent and the format of the images. It must be called
    /// once before any image can be acquired, and again whenever the window
    /// changes its size.
    ///
    /// Fails, changing nothing, with `InvalidState` while an image is
    /// locked; else with `UnsupportedFormat` for a format that the backend
    /// does not list; else with `Overflow` for a width, height or stride
    /// above `i32::MAX` or an image size that makes no layout. On success
    /// every image has storage of `stride * height` bytes, in which the bytes
    /// that fit are kept and new ones are zero; images without storage
    /// become free. An armed ready notifier stays armed.
    pub fn update_surface(&mut self, extent: [u32; 2], format: Format) -> (r: Result<(), Error>)
        requires
            old(self).wf(),
            extent[0] != 0,
            extent[1] != 0,
        ensures
            final(self).wf(),
            match old(self)@.reconfigure(extent, format) {
                Ok(s) => r is Ok && final(self)@ == s,
                Err(e) => r == Err::<(), Error>(e) && final(self)@ == old(self)@,
            },
            r is Ok ==> final(self)@.info.extent == extent && final(self)@.info.format == format
                && final(self)@.info.stride >= 4 * extent[0] && final(self)@.info.stride as int
                % final(self)@.scanline_align == 0,
    {
        if self.has_locked() {
            return Err(Error::InvalidState);
        }
        let (stride, layout) = match self.plan(extent, format) {
            Ok(p) => p,
            Err(e) => {
                return Err(e);
            },
        };
        let size: usize = layout.size();
        let n: usize = self.states.len();
        if self.buffers.len() == 0 {
            Self::allocate_all(&mut self.buffers, n, layout);
        } else {
            Self::resize_all(&mut self.buffers, size, self.buffer_align);
        }
        Self::free_uninitialized(&mut self.states);
        self.image_info = ImageInfo { extent, stride, format };
        proof {
            let goal = old(self)@.reconfigure(extent, format)->Ok_0;
            assert(self@.slots =~= goal.slots);
            assert forall|i: int| 0 <= i < n implies #[trigger] self@.bytes[i] == goal.bytes[i] by {
                if old(self).buffers@.len() == 0 {
                    assert(zeros(size as nat) =~= resized(Seq::<u8>::empty(), size as nat));
                }
            }
            assert(self@.bytes =~= goal.bytes);
            assert(self@ == goal);
            self@.lemma_geometry();
        }
        Ok(())
    }

    /// The lowest index of a free image.
    fn find_free(&self) -> (r: Option<usize>)
        ensures
            r == first_free(self@.slots),
    {
        let n: usize = self.states.len();
        let mut i: usize = 0;
        while i < n
            invariant
                i <= n,
                n == self.states@.len(),
                forall|j: int| 0 <= j < i ==> #[trigger] self.states@[j] != SlotState::Free,
            decreases n - i,
        {
            if self.states[i] == SlotState::Free {
                proof {
                    lemma_first_free_unique(self.states@, i as int);
                }
                return Some(i);
            }
            i += 1;
        }
        proof {
            lemma_first_free_none(self.states@);
        }
        None
    }

    /// Returns the index of the next available image without blocking: the
    /// lowest free one. The image stays available: until it is locked or
    /// presented, the next poll returns it again. If no image is free, the
    /// ready notifier is armed and `None` is returned.
    pub fn poll_next_image(&mut self) -> (r: Option<usize>)
        requires
            old(self).wf(),
        ensures
            final(self).wf(),
            (final(self)@, r) == old(self)@.poll(),
            r matches Some(i) ==> i < old(self)@.slots.len() && old(self)@.slots[i as int]
                == SlotState::Free,
    {
        let n: usize = self.states.len();
        let r = self.find_free();
        if r.is_none() {
            self.notifier.arm();
        }
        proof {
            assert(self@.bytes =~= old(self)@.bytes);
            lemma_first_free_is_free(self.states@);
        }
        r
    }

    /// One step of a blocking acquisition: the lowest free image, or the
    /// news that the caller has to wait for a completion event and ask
    /// again, or that the connection is lost for good.
    pub fn wait_next_image(&self) -> (r: WaitStep)
        requires
            self.wf(),
        ensures
            r == self@.wait(),
            r matches WaitStep::Image(i) ==> i < self@.slots.len() && self@.slots[i as int]
                == SlotState::Free,
    {
        if self.lost {
            return WaitStep::Lost;
        }
        let n: usize = self.states.len();
        proof {
            lemma_first_free_is_free(self.states@);
        }
        match self.find_free() {
            Some(i) => WaitStep::Image(i),
            None => WaitStep::Blocked,
        }
    }

    /// Locks image `i` and hands out its storage, `stride * height` bytes,
    /// for writing. Fails with `ImageBusy`, changing nothing, unless the
    /// image is free.
    pub fn lock_image(&mut self, i: usize) -> (r: Result<LockedImage, Error>)
        requires
            old(self).wf(),
            i < old(self)@.slots.len(),
        ensures
            final(self).wf(),
            match old(self)@.lock(i as int) {
                Ok((s, bytes)) => r matches Ok(image) && image@ == bytes && image.spec_index() == i
                    && image.spec_align() == old(self)@.buffer_align && final(self)@ == s,
                Err(e) => r matches Err(x) && x == e && final(self)@ == old(self)@,
            },
            r matches Ok(image) ==> image@.len() == old(self)@.image_size(),
    {
        if self.states[i] == SlotState::Free {
            proof {
                assert(self@.configured());
                assert(self@.bytes[i as int].len() == self@.image_size());
            }
            let data = self.buffers[i].take();
            self.states[i] = SlotState::Locked;
            proof {
                assert(self@.bytes =~= old(self)@.bytes.update(i as int, Seq::<u8>::empty()));
            }
            Ok(LockedImage { index: i, data })
        } else {
            Err(Error::ImageBusy)
        }
    }

    /// Ends a lock: takes the storage back, with what was written to it,
    /// and makes the image free. Fails with `InvalidState`, changing
    /// nothing, unless the image is locked in this pool and the storage is
    /// of the size and alignment of the pool's images.
    pub fn unlock_image(&mut self, image: LockedImage) -> (r: Result<(), Error>)
        requires
            old(self).wf(),
        ensures
            final(self).wf(),
            match old(self)@.unlock(
                image.spec_index() as int,
                image@,
                image.spec_align() as int,
            ) {
                Ok(s) => r is Ok && final(self)@ == s,
                Err(e) => r == Err::<(), Error>(e) && final(self)@ == old(self)@,
            },
    {
        let i: usize = image.index;
        if i >= self.states.len() {
            return Err(Error::InvalidState);
        }
        if self.states[i] != SlotState::Locked {
            return Err(Error::InvalidState);
        }
        proof {
            assert(self@.configured());
            self@.lemma_geometry();
        }
        let size: usize = self.image_size();
        if image.data.len() != size || image.data.align() != self.buffer_align {
            return Err(Error::InvalidState);
        }
        self.buffers[i] = image.data;
        self.states[i] = SlotState::Free;
        proof {
            assert(self@.bytes =~= old(self)@.bytes.update(i as int, image@));
        }
        Ok(())
    }

    /// Takes image `i` out of the available images and returns what is to be
    /// submitted to the platform. Fails, changing nothing, with
    /// `ConnectionLost` after the connection was lost, else with
    /// `InvalidState` unless the image is free.
    pub fn present_image(&mut self, i: usize) -> (r: Result<Submission, Error>)
        requires
            old(self).wf(),
            i < old(self)@.slots.len(),
        ensures
            final(self).wf(),
            match old(self)@.present(i as int) {
                Ok(s) => r == Ok::<Submission, Error>(old(self)@.submission(i as int))
                    && final(self)@ == s,
                Err(e) => r == Err::<Submission, Error>(e) && final(self)@ == old(self)@,
            },
            r matches Ok(sub) ==> sub.width == old(self)@.info.extent[0] && sub.height == old(self)@.info.extent[1] && sub.stride == old(self)@.info.stride && sub.size == sub.stride
                * sub.height,
    {
        if self.lost {
            return Err(Error::ConnectionLost);
        }
        if self.states[i] != SlotState::Free {
            return Err(Error::InvalidState);
        }
        let w: u32 = self.image_info.extent[0];
        let h: u32 = self.image_info.extent[1];
        let stride: usize = self.image_info.stride;
        proof {
            self@.lemma_geometry();
        }
        let sub = Submission {
            index: i,
            width: w as i32,
            height: h as i32,
            stride: stride as i32,
            size: stride * (h as usize),
            format: self.image_info.format,
        };
        self.states[i] = SlotState::Presenting;
        proof {
            assert(self@.bytes =~= old(self)@.bytes);
        }
        Ok(sub)
    }

    /// Takes note that the platform released image `i`. Returns whether the
    /// ready callback is to be invoked now.
    pub fn release_image(&mut self, i: usize) -> (fire: bool)
        requires
            old(self).wf(),
            i < old(self)@.slots.len(),
        ensures
            final(self).wf(),
            (final(self)@, fire) == old(self)@.release(i as int),
    {
        if self.states[i] == SlotState::Presenting {
            self.states[i] = SlotState::Free;
            let fire = self.notifier.maybe_fire();
            proof {
                assert(self@.bytes =~= old(self)@.bytes);
            }
            fire
        } else {
            false
        }
    }

    /// Takes note that the submission of image `i` returned, with success
    /// (`ok`) or not. Returns whether the ready callback is to be invoked
    /// now, and what is to be reported to the application.
    pub fn submitted(&mut self, i: usize, ok: bool) -> (r: (bool, Result<(), Error>))
        requires
            old(self).wf(),
            i < old(self)@.slots.len(),
        ensures
            final(self).wf(),
            (final(self)@, r.0, r.1) == old(self)@.submitted(i as int, ok),
    {
        if self.states[i] != SlotState::Presenting {
            (false, Err(Error::InvalidState))
        } else if !ok {
            (self.release_image(i), Err(Error::Present))
        } else if self.backend.signals_completion() {
            (false, Ok(()))
        } else {
            (self.release_image(i), Ok(()))
        }
    }

    /// Takes note that the display connection is lost. From now on no
    /// blocking acquisition returns an image and no image can be presented.
    pub fn connection_lost(&mut self)
        requires
            old(self).wf(),
        ensures
            final(self).wf(),
            final(self)@ == (PoolState { lost: true, ..old(self)@ }),
    {
        self.lost = true;
        proof {
            assert(self@.bytes =~= old(self)@.bytes);
        }
    }
}

/// An index that is the lowest free one is what `first_free` returns.
pub proof fn lemma_first_free_unique(slots: Seq<SlotState>, i: int)
    requires
        is_first_free(slots, i),
        slots.len() <= usize::MAX,
    ensures
        first_free(slots) == Some(i as usize),
{
    let c = choose|c: int| is_first_free(slots, c);
    if c < i {
        assert(slots[c] != SlotState::Free);
    }
    if i < c {
        assert(slots[i] != SlotState::Free);
    }
}

/// Where no image is free, `first_free` returns nothing.
pub proof fn lemma_first_free_none(slots: Seq<SlotState>)
    requires
        forall|j: int| 0 <= j < slots.len() ==> #[trigger] slots[j] != SlotState::Free,
    ensures
        first_free(slots) is None,
{
    if exists|i: int| is_first_free(slots, i) {
        let c = choose|c: int| is_first_free(slots, c);
        assert(slots[c] != SlotState::Free);
    }
}

/// What `first_free` returns is the index of a free image, and no image
/// before it is free; it returns nothing only where no image is free.
pub proof fn lemma_first_free_is_free(slots: Seq<SlotState>)
    requires
        slots.len() <= usize::MAX,
    ensures
        match first_free(slots) {
            Some(i) => is_first_free(slots, i as int),
            None => forall|j: int| 0 <= j < slots.len() ==> #[trigger] slots[j] != SlotState::Free,
        },
{
    if exists|i: int| is_first_free(slots, i) {
    } else {
        assert forall|j: int| 0 <= j < slots.len() implies #[trigger] slots[j]
            != SlotState::Free by {
            if slots[j] == SlotState::Free {
                lemma_free_has_first(slots, j);
            }
        }
    }
}

/// Where an image is free, some image is the lowest free one.
proof fn lemma_free_has_first(slots: Seq<SlotState>, j: int)
    requires
        0 <= j < slots.len(),
        slots[j] == SlotState::Free,
    ensures
        exists|i: int| is_first_free(slots, i),
    decreases j,
{
    if forall|k: int| 0 <= k < j ==> #[trigger] slots[k] != SlotState::Free {
        assert(is_first_free(slots, j));
    } else {
        let k = choose|k: int| 0 <= k < j && #[trigger] slots[k] == SlotState::Free;
        lemma_free_has_first(slots, k);
    }
}

/// The pool after `n` polls in a row.
pub open spec fn polled(s: PoolState, n: nat) -> PoolState
    decreases n,
{
    if n == 0 {
        s
    } else {
        polled(s, (n - 1) as nat).poll().0
    }
}

/// A stride holds a whole row and is a multiple of the row alignment, and it
/// is the least such number.
pub proof fn lemma_stride_bounds(width: u32, scanline_align: int)
    requires
        is_pow2(scanline_align),
    ensures
        stride_for(width, scanline_align) >= 4 * width,
        stride_for(width, scanline_align) % scanline_align == 0,
        stride_for(width, scanline_align) < 4 * width + scanline_align,
{
    reveal(is_pow2);
    lemma_round_up_is_least_multiple(4 * width, scanline_align);
}

/// An image that a poll or a blocking acquisition returns is free: it is
/// neither uninitialized, nor locked, nor in presentation.
pub proof fn lemma_acquired_is_free(s: PoolState)
    requires
        s.slots.len() <= usize::MAX,
    ensures
        s.poll().1 matches Some(i) ==> i < s.slots.len() && s.slots[i as int] == SlotState::Free,
        s.wait() matches WaitStep::Image(i) ==> i < s.slots.len() && s.slots[i as int]
            == SlotState::Free,
{
    lemma_first_free_is_free(s.slots);
}

/// Polls in a row all return what the first of them returned, and after the
/// first of them they change nothing.
pub proof fn lemma_poll_repeats(s: PoolState, n: nat)
    ensures
        polled(s, n).poll().1 == s.poll().1,
        n >= 1 ==> polled(s, n) == s.poll().0,
    decreases n,
{
    if n > 0 {
        lemma_poll_repeats(s, (n - 1) as nat);
        let t = s.poll().0;
        assert(t.slots == s.slots);
        assert(t.poll().0 == t);
    }
}

/// Once image `i` is presented, no poll and no blocking acquisition returns
/// it, however many polls come before.
pub proof fn lemma_presented_not_acquired(s: PoolState, i: int, n: nat)
    requires
        0 <= i < s.slots.len() <= usize::MAX,
        s.present(i) is Ok,
    ensures
        s.present(i)->Ok_0.slots[i] == SlotState::Presenting,
        polled(s.present(i)->Ok_0, n).poll().1 != Some(i as usize),
        polled(s.present(i)->Ok_0, n).wait() != WaitStep::Image(i as usize),
{
    let t = s.present(i)->Ok_0;
    lemma_poll_repeats(t, n);
    lemma_first_free_is_free(t.slots);
    if n >= 1 {
        assert(polled(t, n).slots == t.slots);
    }
}

/// An image in presentation stays there through every call but the two
/// that report the platform's answer for it, which free it: locking,
/// unlocking, presenting, polling and reconfiguring leave it as it is.
pub proof fn lemma_presenting_until_released(
    s: PoolState,
    i: int,
    j: int,
    extent: [u32; 2],
    format: Format,
    data: Seq<u8>,
    align: int,
)
    requires
        0 <= i < s.slots.len(),
        0 <= j < s.slots.len(),
        s.slots[i] == SlotState::Presenting,
    ensures
        s.poll().0.slots[i] == SlotState::Presenting,
        s.lock(j) matches Ok(t) ==> t.0.slots[i] == SlotState::Presenting,
        s.unlock(j, data, align) matches Ok(t) ==> t.slots[i] == SlotState::Presenting,
        s.present(j) matches Ok(t) ==> t.slots[i] == SlotState::Presenting,
        s.reconfigure(extent, format) matches Ok(t) ==> t.slots[i] == SlotState::Presenting,
        i != j ==> s.release(j).0.slots[i] == SlotState::Presenting,
        s.release(i).0.slots[i] == SlotState::Free,
        !s.backend.spec_signals_completion() ==> s.submitted(i, true).0.slots[i]
            == SlotState::Free,
        s.backend.spec_signals_completion() ==> s.submitted(i, true).0.slots[i]
            == SlotState::Presenting,
{
}

/// The notifier fires at most once per arming: it fires only if armed, and
/// after it has fired, no further release or returning submission fires
/// until a poll that finds no image arms it again.
pub proof fn lemma_fires_once(s: PoolState, i: int, j: int, ok_i: bool, ok_j: bool)
    requires
        0 <= i < s.slots.len(),
        0 <= j < s.slots.len(),
    ensures
        s.release(i).1 ==> s.armed,
        s.release(i).1 ==> !s.release(i).0.armed && !s.release(i).0.release(j).1
            && !s.release(i).0.submitted(j, ok_j).1,
        s.submitted(i, ok_i).1 ==> s.armed,
        s.submitted(i, ok_i).1 ==> !s.submitted(i, ok_i).0.armed && !s.submitted(
            i,
            ok_i,
        ).0.release(j).1 && !s.submitted(i, ok_i).0.submitted(j, ok_j).1,
{
}

/// While an image is locked, a change of extent or format is refused.
pub proof fn lemma_reconfigure_refused_while_locked(
    s: PoolState,
    i: int,
    extent: [u32; 2],
    format: Format,
)
    requires
        0 <= i < s.slots.len(),
        s.slots[i] == SlotState::Locked,
    ensures
        s.reconfigure(extent, format) == Err::<PoolState, Error>(Error::InvalidState),
{
}

/// A lock that ends with the bytes that it began with leaves the pool as
/// it was.
pub proof fn lemma_lock_unlock_restores(s: PoolState, i: int)
    requires
        s.wf(),
        0 <= i < s.slots.len(),
        s.lock(i) is Ok,
    ensures
        s.lock(i)->Ok_0.0.unlock(i, s.lock(i)->Ok_0.1, s.buffer_align) == Ok::<PoolState, Error>(
            s,
        ),
{
    let t = s.lock(i)->Ok_0.0;
    let b = s.lock(i)->Ok_0.1;
    assert(s.configured());
    assert(s.bytes[i].len() == s.image_size());
    let u = t.unlock(i, b, s.buffer_align)->Ok_0;
    assert(u.slots =~= s.slots);
    assert(u.bytes =~= s.bytes);
}

} // verus!
