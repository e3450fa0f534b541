use reenix::errno::{Errno, KResult};
use reenix::vnode::{FileSystem, InodeNum, Mode, VNode, BLOCK_DEV, CHAR_DEV, DIRECTORY, LINK, PIPE, REGULAR, UNUSED};

/// An object that supports nothing but its length.
struct Bare {
    mode: Mode,
    number: InodeNum,
}

impl VNode for Bare {
    type Res = Bare;

    fn get_mode(&self) -> Mode {
        self.mode
    }

    fn get_number(&self) -> InodeNum {
        self.number
    }

    fn len(&self) -> KResult<usize> {
        Ok(42)
    }
}

struct OneFile;

impl FileSystem<Bare> for OneFile {
    fn get_type() -> &'static str {
        "onefile"
    }

    fn get_fs_root(&self) -> Bare {
        Bare { mode: Mode { bits: DIRECTORY }, number: 0 }
    }

    fn unmount(&mut self) {}

    fn get_vnode(&self, vnode_num: InodeNum) -> Bare {
        Bare { mode: Mode { bits: REGULAR }, number: vnode_num }
    }
}

#[test]
fn kinds_are_independent_bits() {
    assert_eq!(
        [UNUSED, CHAR_DEV, DIRECTORY, BLOCK_DEV, REGULAR, LINK, PIPE],
        [0, 1, 2, 4, 8, 16, 32]
    );
}

#[test]
fn errors_of_a_directory() {
    let dir = Mode { bits: DIRECTORY };
    assert_eq!(dir.stat_err(), Errno::ENOTSUP);
    assert_eq!(dir.len_err(), Errno::ENOTSUP);
    assert_eq!(dir.read_err(), Errno::EISDIR);
    assert_eq!(dir.write_err(), Errno::EISDIR);
    assert_eq!(dir.truncate_err(), Errno::EISDIR);
    assert_eq!(dir.create_err(), Errno::ENOTSUP);
    assert_eq!(dir.lookup_err(), Errno::ENOTSUP);
    assert_eq!(dir.mknod_err(), Errno::ENOTDIR);
    assert_eq!(dir.link_err(), Errno::ENOTSUP);
    assert_eq!(dir.unlink_err(), Errno::ENOTSUP);
    assert_eq!(dir.mkdir_err(), Errno::ENOTSUP);
    assert_eq!(dir.rmdir_err(), Errno::ENOTSUP);
    assert_eq!(dir.readdir_err(), Errno::ENOTSUP);
}

#[test]
fn errors_of_a_regular_file() {
    let file = Mode { bits: REGULAR };
    assert_eq!(file.stat_err(), Errno::ENOTSUP);
    assert_eq!(file.len_err(), Errno::ENOTSUP);
    assert_eq!(file.read_err(), Errno::ENOTSUP);
    assert_eq!(file.write_err(), Errno::ENOTSUP);
    assert_eq!(file.truncate_err(), Errno::ENOTSUP);
    assert_eq!(file.create_err(), Errno::ENOTDIR);
    assert_eq!(file.lookup_err(), Errno::ENOTDIR);
    assert_eq!(file.mknod_err(), Errno::ENODEV);
    assert_eq!(file.link_err(), Errno::ENOTDIR);
    assert_eq!(file.unlink_err(), Errno::ENOTDIR);
    assert_eq!(file.mkdir_err(), Errno::ENOTDIR);
    assert_eq!(file.rmdir_err(), Errno::ENOTDIR);
    assert_eq!(file.readdir_err(), Errno::ENOTDIR);
}

#[test]
fn a_directory_among_other_kinds_is_a_directory() {
    let both = Mode { bits: DIRECTORY | LINK };
    assert_eq!(both.read_err(), Errno::EISDIR);
    assert_eq!(both.create_err(), Errno::ENOTSUP);
    let none = Mode { bits: UNUSED };
    assert_eq!(none.read_err(), Errno::ENOTSUP);
    assert_eq!(none.create_err(), Errno::ENOTDIR);
    assert_eq!(none.mknod_err(), Errno::ENODEV);
}

#[test]
fn operations_fail_with_the_error_of_the_kind_by_default() {
    let fs = OneFile;
    assert_eq!(OneFile::get_type(), "onefile");
    let root = fs.get_fs_root();
    let file = fs.get_vnode(5);
    assert_eq!(file.get_number(), 5);
    let mut buf = [7u8; 4];
    assert!(matches!(root.stat(), Err(Errno::ENOTSUP)));
    assert_eq!(root.read(0, &mut buf), Err(Errno::EISDIR));
    assert_eq!(buf, [7u8; 4]);
    assert_eq!(root.write(0, &buf), Err(Errno::EISDIR));
    assert_eq!(root.truncate(0), Err(Errno::EISDIR));
    assert!(matches!(root.create("a"), Err(Errno::ENOTSUP)));
    assert!(matches!(root.lookup("a"), Err(Errno::ENOTSUP)));
    assert_eq!(root.mknod("a", 1), Err(Errno::ENOTDIR));
    assert_eq!(root.link(&file, "a"), Err(Errno::ENOTSUP));
    assert_eq!(root.unlink("a"), Err(Errno::ENOTSUP));
    assert_eq!(root.mkdir("a"), Err(Errno::ENOTSUP));
    assert_eq!(root.rmdir("a"), Err(Errno::ENOTSUP));
    assert!(matches!(root.readdir(0), Err(Errno::ENOTSUP)));
    assert_eq!(file.read(0, &mut buf), Err(Errno::ENOTSUP));
    assert!(matches!(file.lookup("a"), Err(Errno::ENOTDIR)));
    assert_eq!(file.mknod("a", 1), Err(Errno::ENODEV));
    assert!(matches!(file.readdir(0), Err(Errno::ENOTDIR)));
}

#[test]
fn an_object_overrides_what_it_supports() {
    let file = Bare { mode: Mode { bits: REGULAR }, number: 1 };
    assert_eq!(file.len(), Ok(42));
}
