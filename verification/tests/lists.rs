use trussfs::bytefmt::u64_to_dec;
use trussfs::context::{Context, DirEntry, FsMeta, StringListKey};
use trussfs::copy_data;
use trussfs::INVALID_HANDLE;

fn items_of(ctx: &Context, key: StringListKey) -> Vec<Vec<u8>> {
    let n = ctx.list_length(key);
    let mut out = Vec::new();
    for i in 0..n {
        out.push(ctx.list_get(key, i).expect("index in range").clone());
    }
    out
}

#[test]
fn decimal_rendering_is_exact() {
    assert_eq!(u64_to_dec(0), b"0".to_vec());
    assert_eq!(u64_to_dec(7), b"7".to_vec());
    assert_eq!(u64_to_dec(10), b"10".to_vec());
    assert_eq!(u64_to_dec(1234567890), b"1234567890".to_vec());
    assert_eq!(u64_to_dec(u64::MAX), b"18446744073709551615".to_vec());
}

#[test]
fn list_lifecycle_push_get_length() {
    let mut ctx = Context::new();
    let key = ctx.list_new();
    assert_ne!(key.0, INVALID_HANDLE);
    assert_eq!(ctx.list_length(key), 0);
    assert_eq!(ctx.list_push(key, b"alpha".to_vec()), 1);
    assert_eq!(ctx.list_push(key, b"beta".to_vec()), 1);
    assert_eq!(ctx.list_length(key), 2);
    assert_eq!(ctx.list_get(key, 0), Some(&b"alpha".to_vec()));
    assert_eq!(ctx.list_get(key, 1), Some(&b"beta".to_vec()));
    assert_eq!(ctx.list_get(key, 2), None);
    assert!(ctx.list_free(key));
    assert_eq!(ctx.list_length(key), 0);
    assert_eq!(ctx.list_get(key, 0), None);
    assert!(!ctx.list_free(key));
}

#[test]
fn list_push_rejects_embedded_null() {
    let mut ctx = Context::new();
    let key = ctx.list_new();
    assert_eq!(ctx.list_push(key, b"a\0b".to_vec()), 0);
    assert_eq!(ctx.list_length(key), 0);
    assert_eq!(ctx.list_push(key, b"ab".to_vec()), 1);
    assert_eq!(ctx.list_length(key), 1);
}

#[test]
fn list_ops_on_invalid_handles() {
    let mut ctx = Context::new();
    let bogus = StringListKey(INVALID_HANDLE);
    assert_eq!(ctx.list_length(bogus), 0);
    assert_eq!(ctx.list_get(bogus, 0), None);
    assert_eq!(ctx.list_push(bogus, b"x".to_vec()), 0);
    let other = StringListKey(12345);
    assert_eq!(ctx.list_length(other), 0);
    assert_eq!(ctx.list_push(other, b"x".to_vec()), 0);
}

#[test]
fn splitpath_yields_ordered_segments() {
    let mut ctx = Context::new();
    let key = ctx.splitpath(&b"a/b/c".to_vec()).expect("plain path splits");
    assert_eq!(items_of(&ctx, key), vec![b"a".to_vec(), b"b".to_vec(), b"c".to_vec()]);
}

#[test]
fn splitpath_handles_absolute_and_repeated_separators() {
    let mut ctx = Context::new();
    let key = ctx.splitpath(&b"/usr//lib/".to_vec()).expect("absolute path splits");
    assert_eq!(
        items_of(&ctx, key),
        vec![b"/".to_vec(), b"usr".to_vec(), b"lib".to_vec()]
    );
    let empty = ctx.splitpath(&b"".to_vec()).expect("empty path splits");
    assert_eq!(ctx.list_length(empty), 0);
}

#[test]
fn splitpath_rejects_embedded_null_and_stores_error() {
    let mut ctx = Context::new();
    assert!(ctx.splitpath(&b"a/\0b".to_vec()).is_none());
    // Every fallible operation reports through the error slot.
    assert!(ctx.get_error().is_some());
    // A later success leaves the pending message alone.
    assert!(ctx.splitpath(&b"a/b".to_vec()).is_some());
    assert!(ctx.get_error().is_some());
}

fn entry(name: &[u8], is_file: bool, is_dir: bool, is_symlink: bool) -> DirEntry {
    DirEntry {
        name: name.to_vec(),
        meta: Some(FsMeta { is_file, is_dir, is_symlink }),
    }
}

#[test]
fn listdir_formats_and_filters() {
    let mut ctx = Context::new();
    let entries = vec![
        entry(b"notes.txt", true, false, false),
        entry(b"src", false, true, false),
        entry(b"link", false, false, true),
        DirEntry { name: b"ghost".to_vec(), meta: None },
    ];
    let key = ctx
        .listdir(Ok(entries), false, true)
        .expect("enumeration succeeded");
    assert_eq!(
        items_of(&ctx, key),
        vec![
            b"F _:notes.txt".to_vec(),
            b"D _:src".to_vec(),
            b"? S:link".to_vec(),
        ]
    );
}

#[test]
fn listdir_files_only_without_metadata() {
    let mut ctx = Context::new();
    let entries = vec![
        entry(b"a.txt", true, false, false),
        entry(b"dir", false, true, false),
        entry(b"b.txt", true, false, false),
    ];
    let key = ctx.listdir(Ok(entries), true, false).expect("listing");
    assert_eq!(items_of(&ctx, key), vec![b"a.txt".to_vec(), b"b.txt".to_vec()]);
}

#[test]
fn listdir_length_counts_only_kept_entries() {
    let mut ctx = Context::new();
    let entries = vec![
        entry(b"kept1", true, false, false),
        DirEntry { name: b"skipped".to_vec(), meta: None },
        entry(b"kept2", true, false, false),
        entry(b"dir", false, true, false),
    ];
    let key = ctx.listdir(Ok(entries), true, false).expect("listing");
    assert_eq!(ctx.list_length(key), 2);
}

#[test]
fn listdir_failure_populates_error_slot() {
    let mut ctx = Context::new();
    assert!(ctx.get_error().is_none());
    let r = ctx.listdir(Err(b"no such directory".to_vec()), false, false);
    assert!(r.is_none());
    assert_eq!(ctx.get_error(), Some(&b"no such directory".to_vec()));
    ctx.clear_error();
    assert!(ctx.get_error().is_none());
}

#[test]
fn error_slot_is_overwritten_only_on_failure() {
    let mut ctx = Context::new();
    ctx.listdir(Err(b"first failure".to_vec()), false, false);
    assert_eq!(ctx.get_error(), Some(&b"first failure".to_vec()));
    // A success leaves the pending message in place.
    let ok = ctx.listdir(Ok(Vec::new()), false, false);
    assert!(ok.is_some());
    assert_eq!(ctx.get_error(), Some(&b"first failure".to_vec()));
    // The next failure overwrites it.
    ctx.listdir(Err(b"second failure".to_vec()), false, false);
    assert_eq!(ctx.get_error(), Some(&b"second failure".to_vec()));
}

#[test]
fn list_handles_are_generational() {
    let mut ctx = Context::new();
    let first = ctx.list_new();
    assert_eq!(ctx.list_push(first, b"old".to_vec()), 1);
    assert!(ctx.list_free(first));
    let second = ctx.list_new();
    assert_ne!(first.0, second.0);
    // The stale key reaches nothing, not the new list.
    assert_eq!(ctx.list_length(first), 0);
    assert_eq!(ctx.list_push(first, b"ghost".to_vec()), 0);
    assert_eq!(ctx.list_length(second), 0);
}

#[test]
fn splitpath_drops_interior_dot_segments() {
    // A lone '.' is kept only when the path begins with it, as the
    // platform's path iteration does.
    let mut ctx = Context::new();
    let key = ctx.splitpath(&b"./a/./b".to_vec()).expect("path splits");
    assert_eq!(items_of(&ctx, key), vec![b".".to_vec(), b"a".to_vec(), b"b".to_vec()]);
    let abs = ctx.splitpath(&b"/./a".to_vec()).expect("path splits");
    assert_eq!(items_of(&ctx, abs), vec![b"/".to_vec(), b"a".to_vec()]);
    let dotted = ctx.splitpath(&b"a/.hidden/.".to_vec()).expect("path splits");
    assert_eq!(items_of(&ctx, dotted), vec![b"a".to_vec(), b".hidden".to_vec()]);
    let lone = ctx.splitpath(&b".".to_vec()).expect("path splits");
    assert_eq!(items_of(&ctx, lone), vec![b".".to_vec()]);
}

#[test]
fn copy_data_refuses_partial_copies() {
    let data = b"hello world".to_vec();
    let mut small = vec![0u8; 4];
    assert_eq!(copy_data(&data, &mut small), -1);
    assert_eq!(small, vec![0u8; 4]);
}

#[test]
fn copy_data_fills_prefix_and_reports_count() {
    let data = b"abc".to_vec();
    let mut buf = vec![9u8; 5];
    assert_eq!(copy_data(&data, &mut buf), 3);
    assert_eq!(buf, vec![b'a', b'b', b'c', 9, 9]);
    let mut exact = vec![0u8; 3];
    assert_eq!(copy_data(&data, &mut exact), 3);
    assert_eq!(exact, b"abc".to_vec());
}

#[test]
fn update_dirs_stores_null_free_values() {
    let mut ctx = Context::new();
    ctx.update_dirs(Some(b"/home/user".to_vec()), None);
    assert_eq!(ctx.working_dir(), Some(&b"/home/user".to_vec()));
    assert_eq!(ctx.binary_dir(), None);
    ctx.update_dirs(Some(b"/bad\0dir".to_vec()), Some(b"/bin/app".to_vec()));
    assert_eq!(ctx.working_dir(), None);
    assert_eq!(ctx.binary_dir(), Some(&b"/bin/app".to_vec()));
}
