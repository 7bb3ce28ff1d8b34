use std::path::PathBuf;

use antigen::changed::{Changed, ChangedFlag, ChangedTrait};
use antigen::fs::{FileBytesBundle, FileStringBundle, FilePathComponent};
use antigen::gpu::ToBytes;
use antigen::peano::{S, Z};
use antigen::traits::{Construct, With};
use antigen::usage::Usage;
use antigen::window::{WindowTitleBundle, WindowTitleComponent};

enum Tag {}

#[test]
fn usage_wraps_and_unwraps() {
    let u: Usage<Tag, u32> = Usage::new(5);
    assert_eq!(u.data, 5);
    assert_eq!(u.into_inner(), 5);
    let c: Usage<Tag, u32> = <Usage<Tag, u32> as Construct<u32, Z>>::construct(9);
    assert_eq!(c.data, 9);
}

#[test]
fn nested_construct_and_with() {
    let c = <Usage<Tag, Changed<u32>> as Construct<u32, S<Z>>>::construct(3);
    assert_eq!(c.data.data, 3);
    assert!(!c.data.get_changed());
    let c = <Usage<Tag, Changed<u32>> as With<ChangedFlag, S<Z>>>::with(c, ChangedFlag(true));
    assert_eq!(c.data.data, 3);
    assert!(c.data.get_changed());
}

#[test]
fn changed_flag_reads_back() {
    let c = Changed::new(1u8, false);
    assert!(!c.get_changed());
    c.set_changed(true);
    assert!(c.get_changed());
    assert_eq!(c.into_inner(), 1);
    let d = Changed::new("x", true);
    assert!(d.get_changed());
    assert_eq!(*d, "x");
}

#[test]
fn window_title_is_flagged_changed() {
    let b = WindowTitleBundle::new("antigen");
    let title: &WindowTitleComponent = &b.title;
    assert_eq!(title.data.data, "antigen");
    assert!(title.data.get_changed());
}

#[test]
fn file_bundles() {
    let b = FileBytesBundle::new(PathBuf::from("a.bin"), vec![1, 2]);
    let p: &FilePathComponent = &b.path;
    assert_eq!(p.data, PathBuf::from("a.bin"));
    assert_eq!(b.bytes.data, vec![1, 2]);
    let s = FileStringBundle::new(PathBuf::from("a.txt"), "hi".to_string());
    assert_eq!(s.path.data, PathBuf::from("a.txt"));
    assert_eq!(s.string.data, "hi");
}

#[test]
fn bytes_of_values() {
    assert_eq!(7u32.to_bytes(), &7u32.to_ne_bytes()[..]);
    let v: Vec<u32> = vec![1, 2, 3];
    let bytes = v.to_bytes();
    assert_eq!(bytes.len(), 12);
    assert_eq!(&bytes[4..8], &2u32.to_ne_bytes()[..]);
    let a: [u32; 2] = [9, 0x0a0b_0c0d];
    assert_eq!(a.to_bytes().len(), 8);
    assert_eq!(&a.to_bytes()[4..], &0x0a0b_0c0du32.to_ne_bytes()[..]);
    let u: Usage<Tag, u32> = Usage::new(0x0102_0304);
    assert_eq!(u.to_bytes(), &0x0102_0304u32.to_ne_bytes()[..]);
}

#[test]
fn changed_clone_keeps_value_and_flag() {
    let c = Changed::new(vec![1u8, 2], true);
    let d = c.clone();
    assert_eq!(d.data, vec![1, 2]);
    assert!(d.get_changed());
    c.set_changed(false);
    assert!(d.get_changed());
}
