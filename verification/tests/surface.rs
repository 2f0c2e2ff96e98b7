use swsurface::cgl::{
    translate_format, unpack_row_length, GL_BGRA, GL_RGB, GL_RGBA, GL_UNSIGNED_BYTE,
    GL_UNSIGNED_INT_8_8_8_8_REV,
};
use swsurface::notifier::ReadyNotifier;
use swsurface::surface::{Backend, LockedImage, SlotState, Submission, Surface, WaitStep};
use swsurface::{Config, Error, Format, ImageInfo};

fn wayland(image_count: usize, scanline_align: usize) -> Surface {
    let mut config = Config::new();
    config.image_count = image_count;
    config.scanline_align = scanline_align;
    Surface::new(Backend::Wayland, &config).unwrap()
}

#[test]
fn config_defaults() {
    let c = Config::new();
    assert!(c.vsync);
    assert_eq!(c.image_count, 2);
    assert!(c.opaque);
    assert_eq!(c.align, 1);
    assert_eq!(c.scanline_align, 1);
    let d = Config::default();
    assert_eq!(d.image_count, 2);
    assert!(d.vsync && d.opaque);
}

#[test]
fn image_info_default() {
    let info = ImageInfo::default();
    assert_eq!(info.extent, [0, 0]);
    assert_eq!(info.stride, 0);
    assert_eq!(info.format, Format::Argb8888);
}

#[test]
fn new_surface_is_uninitialized() {
    let s = wayland(3, 1);
    assert_eq!(s.backend(), Backend::Wayland);
    assert_eq!(s.num_images(), 3);
    assert_eq!(s.image_info(), ImageInfo::default());
    assert_eq!(s.image_size(), 0);
    assert!(s.does_preserve_image());
    assert!(!s.ready_armed());
    for i in 0..3 {
        assert_eq!(s.image_state(i), SlotState::Uninitialized);
    }
}

#[test]
fn single_image_backends() {
    let mut config = Config::new();
    config.image_count = 5;
    for &b in &[Backend::X11, Backend::Windows, Backend::Cgl] {
        let s = Surface::new(b, &config).unwrap();
        assert_eq!(s.num_images(), 1);
    }
    assert_eq!(Surface::new(Backend::Wayland, &config).unwrap().num_images(), 5);
}

#[test]
fn new_rejects_bad_alignment() {
    let mut config = Config::new();
    config.scanline_align = 3;
    assert_eq!(
        Surface::new(Backend::Wayland, &config).unwrap_err(),
        Error::InvalidAlignment
    );
    assert_eq!(
        Surface::new(Backend::X11, &config).unwrap_err(),
        Error::InvalidAlignment
    );
    config.scanline_align = 4;
    config.align = 0;
    assert_eq!(
        Surface::new(Backend::Cgl, &config).unwrap_err(),
        Error::InvalidAlignment
    );
    // Windows takes neither alignment from the configuration.
    assert!(Surface::new(Backend::Windows, &config).is_ok());
}

#[test]
fn supported_formats_per_backend() {
    let config = Config::new();
    let both = vec![Format::Argb8888, Format::Xrgb8888];
    let argb = vec![Format::Argb8888];
    assert_eq!(Backend::Wayland.supported_formats(), argb);
    assert_eq!(Backend::Windows.supported_formats(), argb);
    assert_eq!(Backend::X11.supported_formats(), both);
    assert_eq!(Backend::Cgl.supported_formats(), both);
    assert!(Backend::X11.supports(Format::Xrgb8888));
    assert!(!Backend::Wayland.supports(Format::Xrgb8888));
    assert!(Backend::Wayland.supports(Format::Argb8888));
    let s = Surface::new(Backend::Cgl, &config).unwrap();
    assert_eq!(s.supported_formats(), both);
}

#[test]
fn backend_capabilities() {
    assert!(Backend::Wayland.signals_completion());
    assert!(!Backend::X11.signals_completion());
    assert!(!Backend::Windows.signals_completion());
    assert!(!Backend::Cgl.signals_completion());
    assert!(Backend::Wayland.takes_ready_cb());
    assert!(Backend::X11.takes_ready_cb());
    assert!(!Backend::Windows.takes_ready_cb());
    assert!(!Backend::Cgl.takes_ready_cb());
}

#[test]
fn stride_is_padded_to_alignment() {
    let mut s = wayland(2, 64);
    assert_eq!(s.update_surface([10, 10], Format::Argb8888), Ok(()));
    let info = s.image_info();
    assert_eq!(info.extent, [10, 10]);
    assert_eq!(info.stride, 64);
    assert_eq!(info.stride % 64, 0);
    assert_eq!(info.format, Format::Argb8888);
    assert_eq!(s.image_size(), 640);
    assert_eq!(s.image_bytes(0).len(), 640);
    assert_eq!(s.image_bytes(1).len(), 640);
    assert!(s.image_bytes(0).iter().all(|&b| b == 0));
    assert_eq!(s.image_state(0), SlotState::Free);
    assert_eq!(s.image_state(1), SlotState::Free);
}

#[test]
fn stride_without_padding() {
    let mut s = wayland(2, 1);
    assert_eq!(s.update_surface([10, 10], Format::Argb8888), Ok(()));
    assert_eq!(s.image_info().stride, 40);
    assert_eq!(s.image_bytes(0).len(), 400);
    let mut t = wayland(1, 16);
    assert_eq!(t.update_surface([4, 3], Format::Argb8888), Ok(()));
    assert_eq!(t.image_info().stride, 16);
    assert_eq!(t.update_surface([5, 3], Format::Argb8888), Ok(()));
    assert_eq!(t.image_info().stride, 32);
    assert_eq!(t.image_bytes(0).len(), 96);
}

#[test]
fn windows_rows_have_no_padding() {
    let mut config = Config::new();
    config.scanline_align = 64;
    let mut s = Surface::new(Backend::Windows, &config).unwrap();
    assert_eq!(s.update_surface([10, 2], Format::Argb8888), Ok(()));
    assert_eq!(s.image_info().stride, 40);
    assert_eq!(s.image_bytes(0).len(), 80);
}

#[test]
fn update_surface_rejects_unsupported_format() {
    let mut s = wayland(2, 1);
    assert_eq!(
        s.update_surface([4, 4], Format::Xrgb8888),
        Err(Error::UnsupportedFormat)
    );
    assert_eq!(s.image_info(), ImageInfo::default());
    assert_eq!(s.image_state(0), SlotState::Uninitialized);
    let config = Config::new();
    let mut x = Surface::new(Backend::X11, &config).unwrap();
    assert_eq!(x.update_surface([4, 4], Format::Xrgb8888), Ok(()));
    assert_eq!(x.image_info().format, Format::Xrgb8888);
}

#[test]
fn update_surface_rejects_overflow() {
    let mut s = wayland(1, 1);
    assert_eq!(
        s.update_surface([0x8000_0000, 1], Format::Argb8888),
        Err(Error::Overflow)
    );
    assert_eq!(
        s.update_surface([1, 0x8000_0000], Format::Argb8888),
        Err(Error::Overflow)
    );
    // the width fits, the stride does not
    assert_eq!(
        s.update_surface([0x2000_0000, 1], Format::Argb8888),
        Err(Error::Overflow)
    );
    assert_eq!(s.image_info(), ImageInfo::default());
    assert_eq!(s.image_state(0), SlotState::Uninitialized);
    assert_eq!(s.poll_next_image(), None);
}

#[test]
fn reconfigure_while_locked_fails_and_changes_nothing() {
    let mut s = wayland(2, 1);
    assert_eq!(s.update_surface([2, 2], Format::Argb8888), Ok(()));
    let mut image = s.lock_image(1).unwrap();
    image.write(0, &[1, 2, 3, 4]);
    let before = s.image_info();
    assert_eq!(
        s.update_surface([8, 8], Format::Argb8888),
        Err(Error::InvalidState)
    );
    assert_eq!(s.image_info(), before);
    assert_eq!(s.image_state(0), SlotState::Free);
    assert_eq!(s.image_state(1), SlotState::Locked);
    assert_eq!(s.image_bytes(0).len(), 16);
    assert_eq!(image.len(), 16);
    assert_eq!(s.unlock_image(image), Ok(()));
    assert_eq!(&s.image_bytes(1)[..5], &[1u8, 2, 3, 4, 0][..]);
    assert_eq!(s.update_surface([8, 8], Format::Argb8888), Ok(()));
    assert_eq!(s.image_info().stride, 32);
}

#[test]
fn reconfigure_keeps_bytes_and_zero_fills() {
    let mut s = wayland(1, 1);
    assert_eq!(s.update_surface([1, 2], Format::Argb8888), Ok(()));
    let mut image = s.lock_image(0).unwrap();
    image.write(0, &[1, 2, 3, 4, 5, 6, 7, 8]);
    assert_eq!(s.unlock_image(image), Ok(()));
    assert_eq!(s.update_surface([1, 3], Format::Argb8888), Ok(()));
    assert_eq!(
        s.image_bytes(0),
        &[1u8, 2, 3, 4, 5, 6, 7, 8, 0, 0, 0, 0][..]
    );
    assert_eq!(s.update_surface([1, 1], Format::Argb8888), Ok(()));
    assert_eq!(s.image_bytes(0), &[1u8, 2, 3, 4][..]);
}

#[test]
fn reconfigure_keeps_presenting_and_armed() {
    let mut s = wayland(1, 1);
    assert_eq!(s.update_surface([2, 2], Format::Argb8888), Ok(()));
    assert!(s.present_image(0).is_ok());
    assert_eq!(s.poll_next_image(), None);
    assert!(s.ready_armed());
    assert_eq!(s.update_surface([3, 3], Format::Argb8888), Ok(()));
    assert_eq!(s.image_state(0), SlotState::Presenting);
    assert!(s.ready_armed());
    assert_eq!(s.image_bytes(0).len(), 36);
}

#[test]
fn uninitialized_images_are_never_acquired() {
    let mut s = wayland(2, 1);
    assert_eq!(s.poll_next_image(), None);
    assert!(s.ready_armed());
    assert_eq!(s.wait_next_image(), WaitStep::Blocked);
    assert_eq!(s.lock_image(0).unwrap_err(), Error::ImageBusy);
    assert_eq!(s.present_image(0), Err(Error::InvalidState));
    assert_eq!(s.image_state(0), SlotState::Uninitialized);
}

#[test]
fn poll_returns_the_same_index_until_presented() {
    let mut s = wayland(3, 1);
    assert_eq!(s.update_surface([4, 4], Format::Argb8888), Ok(()));
    for _ in 0..5 {
        assert_eq!(s.poll_next_image(), Some(0));
    }
    assert!(!s.ready_armed());
    assert!(s.present_image(0).is_ok());
    for _ in 0..5 {
        assert_eq!(s.poll_next_image(), Some(1));
        assert_eq!(s.wait_next_image(), WaitStep::Image(1));
    }
    assert!(s.present_image(1).is_ok());
    assert!(s.present_image(2).is_ok());
    for _ in 0..5 {
        assert_eq!(s.poll_next_image(), None);
        assert_eq!(s.wait_next_image(), WaitStep::Blocked);
    }
    assert!(s.release_image(1));
    for _ in 0..3 {
        assert_eq!(s.poll_next_image(), Some(1));
    }
}

#[test]
fn presented_image_is_not_acquired_until_released() {
    let mut s = wayland(1, 1);
    assert_eq!(s.update_surface([4, 4], Format::Argb8888), Ok(()));
    assert_eq!(s.poll_next_image(), Some(0));
    assert!(s.present_image(0).is_ok());
    assert_eq!(s.image_state(0), SlotState::Presenting);
    assert_eq!(s.submitted(0, true), (false, Ok(())));
    assert_eq!(s.image_state(0), SlotState::Presenting);
    assert_eq!(s.poll_next_image(), None);
    assert_eq!(s.wait_next_image(), WaitStep::Blocked);
    assert_eq!(s.lock_image(0).unwrap_err(), Error::ImageBusy);
    assert_eq!(s.present_image(0), Err(Error::InvalidState));
    assert!(s.release_image(0));
    assert_eq!(s.image_state(0), SlotState::Free);
    assert_eq!(s.poll_next_image(), Some(0));
}

#[test]
fn notifier_fires_once_per_arm() {
    let mut s = wayland(2, 1);
    assert_eq!(s.update_surface([4, 4], Format::Argb8888), Ok(()));
    assert!(s.present_image(0).is_ok());
    assert!(s.present_image(1).is_ok());
    assert_eq!(s.poll_next_image(), None);
    assert_eq!(s.poll_next_image(), None);
    assert!(s.ready_armed());
    assert!(s.release_image(0));
    assert!(!s.ready_armed());
    assert!(!s.release_image(1));
    // a release of an image that is not in presentation fires nothing
    assert!(s.present_image(0).is_ok());
    assert!(s.present_image(1).is_ok());
    assert_eq!(s.poll_next_image(), None);
    assert!(s.release_image(1));
    assert!(!s.release_image(1));
    assert!(!s.release_image(0));
}

#[test]
fn release_without_arm_fires_nothing() {
    let mut s = wayland(2, 1);
    assert_eq!(s.update_surface([4, 4], Format::Argb8888), Ok(()));
    assert!(s.present_image(0).is_ok());
    assert!(!s.release_image(0));
    assert_eq!(s.image_state(0), SlotState::Free);
    assert!(!s.release_image(0));
}

#[test]
fn ready_notifier_latch() {
    let mut n = ReadyNotifier::new();
    assert!(!n.armed());
    assert!(!n.maybe_fire());
    n.arm();
    n.arm();
    assert!(n.armed());
    assert!(n.maybe_fire());
    assert!(!n.armed());
    assert!(!n.maybe_fire());
    assert!(!n.maybe_fire());
    n.arm();
    assert!(n.maybe_fire());
}

#[test]
fn lock_is_exclusive() {
    let mut s = wayland(2, 1);
    assert_eq!(s.update_surface([2, 1], Format::Argb8888), Ok(()));
    let image = s.lock_image(0).unwrap();
    assert_eq!(image.index(), 0);
    assert_eq!(image.len(), 8);
    assert_eq!(s.image_state(0), SlotState::Locked);
    assert_eq!(s.lock_image(0).unwrap_err(), Error::ImageBusy);
    assert_eq!(s.present_image(0), Err(Error::InvalidState));
    assert_eq!(s.image_state(0), SlotState::Locked);
    // a locked image is not among the available ones
    assert_eq!(s.poll_next_image(), Some(1));
    assert_eq!(s.unlock_image(image), Ok(()));
    assert_eq!(s.image_state(0), SlotState::Free);
    assert_eq!(s.poll_next_image(), Some(0));
}

#[test]
fn locked_image_is_written_in_place() {
    let mut s = wayland(1, 1);
    assert_eq!(s.update_surface([2, 1], Format::Argb8888), Ok(()));
    let mut image = s.lock_image(0).unwrap();
    assert_eq!(image.as_slice(), &[0u8; 8][..]);
    image.write(2, &[1, 2, 3]);
    image.write(8, &[]);
    image.as_mut_slice()[7] = 9;
    assert_eq!(image.as_slice(), &[0u8, 0, 1, 2, 3, 0, 0, 9][..]);
    assert_eq!(s.unlock_image(image), Ok(()));
    assert_eq!(s.image_bytes(0), &[0u8, 0, 1, 2, 3, 0, 0, 9][..]);
    // the bytes are there at the next lock
    let image = s.lock_image(0).unwrap();
    assert_eq!(image.as_slice(), &[0u8, 0, 1, 2, 3, 0, 0, 9][..]);
    assert_eq!(s.unlock_image(image), Ok(()));
}

fn lock_first(s: &mut Surface) -> LockedImage {
    s.lock_image(0).unwrap()
}

#[test]
fn unlock_refuses_a_foreign_image() {
    let mut a = wayland(2, 1);
    let mut b = wayland(2, 1);
    assert_eq!(a.update_surface([2, 1], Format::Argb8888), Ok(()));
    assert_eq!(b.update_surface([3, 1], Format::Argb8888), Ok(()));
    // not locked in `b`
    let image = lock_first(&mut a);
    assert_eq!(b.unlock_image(image), Err(Error::InvalidState));
    assert_eq!(b.image_state(0), SlotState::Free);
    assert_eq!(b.image_bytes(0).len(), 12);
    // locked in `b`, but of another size
    assert_eq!(a.unlock_image(lock_first(&mut b)), Err(Error::InvalidState));
    assert_eq!(a.image_state(0), SlotState::Locked);
    // an image of a surface without that index
    let mut c = wayland(1, 1);
    let mut d = wayland(3, 1);
    assert_eq!(c.update_surface([2, 1], Format::Argb8888), Ok(()));
    assert_eq!(d.update_surface([2, 1], Format::Argb8888), Ok(()));
    let third = d.lock_image(2).unwrap();
    assert_eq!(third.index(), 2);
    assert_eq!(c.unlock_image(third), Err(Error::InvalidState));
    // another alignment of the storage
    let mut config = Config::new();
    config.align = 16;
    let mut e = Surface::new(Backend::Wayland, &config).unwrap();
    let mut f = wayland(2, 1);
    assert_eq!(e.update_surface([2, 1], Format::Argb8888), Ok(()));
    assert_eq!(f.update_surface([2, 1], Format::Argb8888), Ok(()));
    let from_e = lock_first(&mut e);
    let from_f = lock_first(&mut f);
    assert_eq!(f.unlock_image(from_e), Err(Error::InvalidState));
    assert_eq!(f.image_state(0), SlotState::Locked);
    assert_eq!(f.unlock_image(from_f), Ok(()));
    assert_eq!(f.image_state(0), SlotState::Free);
}

#[test]
fn present_returns_the_submission() {
    let mut s = wayland(2, 64);
    assert_eq!(s.update_surface([10, 7], Format::Argb8888), Ok(()));
    assert_eq!(
        s.present_image(1),
        Ok(Submission {
            index: 1,
            width: 10,
            height: 7,
            stride: 64,
            size: 448,
            format: Format::Argb8888,
        })
    );
    assert_eq!(s.image_state(1), SlotState::Presenting);
    assert_eq!(s.image_state(0), SlotState::Free);
}

#[test]
fn synchronous_backend_frees_after_submission() {
    let config = Config::new();
    let mut s = Surface::new(Backend::X11, &config).unwrap();
    assert_eq!(s.update_surface([3, 3], Format::Xrgb8888), Ok(()));
    assert_eq!(s.wait_next_image(), WaitStep::Image(0));
    assert!(s.present_image(0).is_ok());
    assert_eq!(s.poll_next_image(), None);
    assert_eq!(s.submitted(0, true), (true, Ok(())));
    assert_eq!(s.image_state(0), SlotState::Free);
    assert!(!s.ready_armed());
    assert_eq!(s.poll_next_image(), Some(0));
    assert!(s.present_image(0).is_ok());
    assert_eq!(s.submitted(0, true), (false, Ok(())));
    assert_eq!(s.submitted(0, true), (false, Err(Error::InvalidState)));
    assert_eq!(s.image_state(0), SlotState::Free);
}

#[test]
fn failed_submission_frees_the_image() {
    let mut s = wayland(1, 1);
    assert_eq!(s.update_surface([3, 3], Format::Argb8888), Ok(()));
    assert!(s.present_image(0).is_ok());
    assert_eq!(s.submitted(0, false), (false, Err(Error::Present)));
    assert_eq!(s.image_state(0), SlotState::Free);
    assert_eq!(s.poll_next_image(), Some(0));
    // a failed submission frees the image as a release does: it fires too
    assert!(s.present_image(0).is_ok());
    assert_eq!(s.poll_next_image(), None);
    assert_eq!(s.submitted(0, false), (true, Err(Error::Present)));
    assert!(!s.ready_armed());
    assert_eq!(s.submitted(0, false), (false, Err(Error::InvalidState)));
}

#[test]
fn lost_connection_ends_acquisition() {
    let mut s = wayland(2, 1);
    assert_eq!(s.update_surface([3, 3], Format::Argb8888), Ok(()));
    assert_eq!(s.wait_next_image(), WaitStep::Image(0));
    s.connection_lost();
    for _ in 0..3 {
        assert_eq!(s.wait_next_image(), WaitStep::Lost);
    }
    assert_eq!(s.present_image(0), Err(Error::ConnectionLost));
    assert_eq!(s.image_state(0), SlotState::Free);
}

#[test]
fn surface_without_images() {
    let mut s = wayland(0, 1);
    assert_eq!(s.num_images(), 0);
    assert_eq!(s.update_surface([3, 3], Format::Argb8888), Ok(()));
    assert_eq!(s.image_info().stride, 12);
    assert_eq!(s.poll_next_image(), None);
    assert_eq!(s.wait_next_image(), WaitStep::Blocked);
}

#[test]
fn gl_formats() {
    assert_eq!(
        translate_format(Format::Argb8888),
        (GL_RGBA, GL_BGRA, GL_UNSIGNED_BYTE)
    );
    assert_eq!(
        translate_format(Format::Xrgb8888),
        (GL_RGB, GL_BGRA, GL_UNSIGNED_INT_8_8_8_8_REV)
    );
    assert_eq!(translate_format(Format::Argb8888), (0x1908, 0x80E1, 0x1401));
    assert_eq!(translate_format(Format::Xrgb8888), (0x1907, 0x80E1, 0x8367));
    assert_eq!(unpack_row_length(64), 16);
    assert_eq!(unpack_row_length(0), 0);
}

#[test]
fn backend_from_unix_handles() {
    let of = Backend::of_unix_handles;
    assert_eq!(of(true, true, false, false), Some(Backend::Wayland));
    assert_eq!(of(true, true, true, true), Some(Backend::Wayland));
    assert_eq!(of(false, false, true, true), Some(Backend::X11));
    assert_eq!(of(false, false, false, false), None);
    assert_eq!(of(true, false, true, true), None);
    assert_eq!(of(false, true, true, true), None);
    assert_eq!(of(false, false, true, false), None);
    assert_eq!(of(false, false, false, true), None);
}
