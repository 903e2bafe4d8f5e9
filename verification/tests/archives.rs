use std::io::Write;

use trussfs::context::{ArchiveKey, Context};
use trussfs::INVALID_HANDLE;

/// A small archive with one file and one directory, built in memory.
fn sample_zip() -> Vec<u8> {
    let cursor = std::io::Cursor::new(Vec::new());
    let mut writer = zip::ZipWriter::new(cursor);
    let options = zip::write::SimpleFileOptions::default();
    writer.start_file("hello.txt", options).unwrap();
    writer.write_all(b"hello").unwrap();
    writer.add_directory("sub", options).unwrap();
    writer.start_file("sub/data.bin", options).unwrap();
    writer.write_all(&[1, 2, 3, 4, 5, 6, 7]).unwrap();
    writer.finish().unwrap().into_inner()
}

fn records_of(ctx: &Context, key: trussfs::context::StringListKey) -> Vec<Vec<u8>> {
    let n = ctx.list_length(key);
    let mut out = Vec::new();
    for i in 0..n {
        out.push(ctx.list_get(key, i).expect("index in range").clone());
    }
    out
}

#[test]
fn mount_failure_populates_error_slot() {
    let mut ctx = Context::new();
    // The read itself failed.
    let r = ctx.mount_archive(Err(b"no such file".to_vec()));
    assert!(r.is_none());
    assert_eq!(ctx.get_error(), Some(&b"no such file".to_vec()));
    // The bytes are not an archive.
    let r = ctx.mount_archive(Ok(b"this is not a zip file".to_vec()));
    assert!(r.is_none());
    assert!(ctx.get_error().is_some());
    assert_ne!(ctx.get_error(), Some(&b"no such file".to_vec()));
}

#[test]
fn mount_and_list_matches_container_metadata() {
    let mut ctx = Context::new();
    let key = ctx.mount_archive(Ok(sample_zip())).expect("valid archive mounts");
    let list = ctx.list_archive(key).expect("listing a live archive");
    let records = records_of(&ctx, list);
    assert_eq!(
        records,
        vec![
            b"0 5 F:hello.txt".to_vec(),
            b"1 0 D:sub".to_vec(),
            b"2 7 F:sub/data.bin".to_vec(),
        ]
    );
}

#[test]
fn list_archive_requires_a_live_archive_handle() {
    let mut ctx = Context::new();
    assert!(ctx.list_archive(ArchiveKey(INVALID_HANDLE)).is_none());
    assert!(ctx.list_archive(ArchiveKey(777)).is_none());
    let key = ctx.mount_archive(Ok(sample_zip())).unwrap();
    assert!(ctx.archive_free(key));
    assert!(ctx.list_archive(key).is_none());
    assert!(!ctx.archive_free(key));
}

#[test]
fn filesize_by_index_and_name() {
    let mut ctx = Context::new();
    let key = ctx.mount_archive(Ok(sample_zip())).unwrap();
    assert_eq!(ctx.archive_filesize_index(key, 0), 5);
    assert_eq!(ctx.archive_filesize_index(key, 2), 7);
    assert_eq!(ctx.archive_filesize_index(key, 99), 0);
    assert_eq!(ctx.archive_filesize_name(key, &b"hello.txt".to_vec()), 5);
    assert_eq!(ctx.archive_filesize_name(key, &b"sub/data.bin".to_vec()), 7);
    assert_eq!(ctx.archive_filesize_name(key, &b"absent.txt".to_vec()), 0);
    assert_eq!(ctx.archive_filesize_index(ArchiveKey(INVALID_HANDLE), 0), 0);
}

#[test]
fn read_by_index_small_buffer_refused_without_partial_copy() {
    let mut ctx = Context::new();
    let key = ctx.mount_archive(Ok(sample_zip())).unwrap();
    let mut buf = vec![0xAAu8; 3];
    assert_eq!(ctx.archive_read_index(key, 0, &mut buf), -1);
    assert_eq!(buf, vec![0xAAu8; 3]);
}

#[test]
fn read_by_index_exact_bytes() {
    let mut ctx = Context::new();
    let key = ctx.mount_archive(Ok(sample_zip())).unwrap();
    let mut buf = vec![0u8; 16];
    let n = ctx.archive_read_index(key, 0, &mut buf);
    assert_eq!(n, 5);
    assert_eq!(&buf[..5], b"hello");
    assert_eq!(&buf[5..], &[0u8; 11]);
}

#[test]
fn read_by_name_exact_bytes_and_failures() {
    let mut ctx = Context::new();
    let key = ctx.mount_archive(Ok(sample_zip())).unwrap();
    let mut buf = vec![0u8; 7];
    let n = ctx.archive_read_name(key, &b"sub/data.bin".to_vec(), &mut buf);
    assert_eq!(n, 7);
    assert_eq!(buf, vec![1, 2, 3, 4, 5, 6, 7]);
    let mut other = vec![5u8; 4];
    assert_eq!(ctx.archive_read_name(key, &b"absent".to_vec(), &mut other), -1);
    assert_eq!(other, vec![5u8; 4]);
    assert_eq!(
        ctx.archive_read_name(ArchiveKey(INVALID_HANDLE), &b"hello.txt".to_vec(), &mut other),
        -1
    );
}

#[test]
fn archive_handles_are_generational() {
    let mut ctx = Context::new();
    let first = ctx.mount_archive(Ok(sample_zip())).unwrap();
    assert!(ctx.archive_free(first));
    let second = ctx.mount_archive(Ok(sample_zip())).unwrap();
    assert_ne!(first.0, second.0);
    // The stale handle must not alias the new archive.
    assert_eq!(ctx.archive_filesize_index(first, 0), 0);
    assert_eq!(ctx.archive_filesize_index(second, 0), 5);
}

#[test]
fn open_reports_entry_count() {
    let mut archive = trussfs::archive::Archive::open(sample_zip()).expect("bytes decode");
    assert_eq!(archive.entry_count(), 3);
    assert_eq!(archive.filesize_by_index(1), Ok(0));
    assert!(trussfs::archive::Archive::open(b"garbage".to_vec()).is_err());
    assert_eq!(archive.read_file_by_index(0), Ok(b"hello".to_vec()));
    assert!(archive.read_file_by_index(3).is_err());
    assert_eq!(archive.read_file_by_name(&b"hello.txt".to_vec()), Ok(b"hello".to_vec()));
    assert_eq!(archive.filesize_by_name(&b"hello.txt".to_vec()), Ok(5));
}
