//! What a file-system object is: its kind, its number, and the operations
//! that it may support.
//!
//! Every operation has a default that fails with the error that fits the
//! kind of the object; an object overrides the operations that it supports.

use crate::errno::{Errno, KResult};
use vstd::prelude::*;

verus! {

/// The number of an object within its file system.
pub type InodeNum = u32;

/// The identity of a device.
pub type DeviceId = u32;

/// An object that is not in use.
pub const UNUSED: u8 = 0;

/// A character special device.
pub const CHAR_DEV: u8 = 1;

/// A directory.
pub const DIRECTORY: u8 = 2;

/// A block device.
pub const BLOCK_DEV: u8 = 4;

/// A regular file.
pub const REGULAR: u8 = 8;

/// A symbolic link.
pub const LINK: u8 = 16;

/// A pipe.
pub const PIPE: u8 = 32;

/// The kinds of a file-system object: a set of the flags above.
#[derive(Clone, Copy, Debug, PartialEq, Eq, Structural)]
pub struct Mode {
    pub bits: u8,
}

impl Mode {
    /// Whether the object is a directory.
    pub open spec fn is_directory(self) -> bool {
        self.bits & DIRECTORY != UNUSED
    }

    /// The error of an object that cannot be read: that of its kind.
    pub open spec fn io_error(self) -> Errno {
        if self.is_directory() {
            Errno::EISDIR
        } else {
            Errno::ENOTSUP
        }
    }

    /// The error of an object that cannot look names up: that of its kind.
    pub open spec fn name_error(self) -> Errno {
        if self.is_directory() {
            Errno::ENOTSUP
        } else {
            Errno::ENOTDIR
        }
    }

    /// The error of an object in which no device node can be made.
    pub open spec fn node_error(self) -> Errno {
        if self.is_directory() {
            Errno::ENOTDIR
        } else {
            Errno::ENODEV
        }
    }

    /// The error of an object whose state cannot be read.
    pub fn stat_err(self) -> (e: Errno)
        ensures
            e == Errno::ENOTSUP,
    {
        Errno::ENOTSUP
    }

    /// The error of an object that has no length.
    pub fn len_err(self) -> (e: Errno)
        ensures
            e == Errno::ENOTSUP,
    {
        Errno::ENOTSUP
    }

    /// The error of an object that cannot be read.
    pub fn read_err(self) -> (e: Errno)
        ensures
            e == self.io_error(),
    {
        if self.bits & DIRECTORY != UNUSED {
            Errno::EISDIR
        } else {
            Errno::ENOTSUP
        }
    }

    /// The error of an object that cannot be written.
    pub fn write_err(self) -> (e: Errno)
        ensures
            e == self.io_error(),
    {
        self.read_err()
    }

    /// The error of an object that cannot be truncated.
    pub fn truncate_err(self) -> (e: Errno)
        ensures
            e == self.io_error(),
    {
        self.read_err()
    }

    /// The error of an object in which nothing can be created.
    pub fn create_err(self) -> (e: Errno)
        ensures
            e == self.name_error(),
    {
        if self.bits & DIRECTORY == UNUSED {
            Errno::ENOTDIR
        } else {
            Errno::ENOTSUP
        }
    }

    /// The error of an object in which no name can be looked up.
    pub fn lookup_err(self) -> (e: Errno)
        ensures
            e == self.name_error(),
    {
        self.create_err()
    }

    /// The error of an object in which no device node can be made.
    pub fn mknod_err(self) -> (e: Errno)
        ensures
            e == self.node_error(),
    {
        if self.bits & DIRECTORY != UNUSED {
            Errno::ENOTDIR
        } else {
            Errno::ENODEV
        }
    }

    /// The error of an object in which no link can be made.
    pub fn link_err(self) -> (e: Errno)
        ensures
            e == self.name_error(),
    {
        self.create_err()
    }

    /// The error of an object from which no name can be removed.
    pub fn unlink_err(self) -> (e: Errno)
        ensures
            e == self.name_error(),
    {
        self.create_err()
    }

    /// The error of an object in which no directory can be made.
    pub fn mkdir_err(self) -> (e: Errno)
        ensures
            e == self.name_error(),
    {
        self.create_err()
    }

    /// The error of an object from which no directory can be removed.
    pub fn rmdir_err(self) -> (e: Errno)
        ensures
            e == self.name_error(),
    {
        self.create_err()
    }

    /// The error of an object whose entries cannot be read.
    pub fn readdir_err(self) -> (e: Errno)
        ensures
            e == self.name_error(),
    {
        self.create_err()
    }
}

/// Whether `e` is the error of some kind of object that cannot be read.
pub open spec fn is_io_error(e: Errno) -> bool {
    exists|mode: Mode| e == #[trigger] mode.io_error()
}

/// Whether `e` is the error of some kind of object that cannot look names up.
pub open spec fn is_name_error(e: Errno) -> bool {
    exists|mode: Mode| e == #[trigger] mode.name_error()
}

/// Whether `e` is the error of some kind of object in which no device node
/// can be made.
pub open spec fn is_node_error(e: Errno) -> bool {
    exists|mode: Mode| e == #[trigger] mode.node_error()
}

/// An entry of a directory.
pub struct DirEnt {
    pub inode: InodeNum,
    pub offset: usize,
    pub name: String,
}

/// What is known of a file-system object.
pub struct Stat {
    pub dev: DeviceId,
    pub inode: InodeNum,
    pub rdev: u32,
    pub nlink: u32,
    pub uid: u32,
    pub gid: u32,
    pub size: u32,
    pub atime: u32,
    pub mtime: u32,
    pub ctime: u32,
    pub blksize: u32,
    pub blocks: u32,
}

/// A file-system object.
///
/// An operation that the object does not override fails with the error that
/// fits the kind of the object: the error that the function of `Mode` for the
/// operation gives for the kind that `get_mode` returns.
pub trait VNode: Sized {
    /// The objects that this object hands out.
    type Res;

    /// The kind of the object.
    fn get_mode(&self) -> Mode;

    /// The number of the object.
    fn get_number(&self) -> InodeNum;

    fn stat(&self) -> (r: KResult<Stat>)
        default_ensures
            r matches Err(e) && e == Errno::ENOTSUP,
    {
        Err(self.get_mode().stat_err())
    }

    fn len(&self) -> (r: KResult<usize>)
        default_ensures
            r == Err::<usize, Errno>(Errno::ENOTSUP),
    {
        Err(self.get_mode().len_err())
    }

    fn read(&self, off: usize, buf: &mut [u8]) -> (r: KResult<usize>)
        default_ensures
            r matches Err(e) && is_io_error(e),
            final(buf)@ == old(buf)@,
    {
        Err(self.get_mode().read_err())
    }

    fn write(&self, off: usize, buf: &[u8]) -> (r: KResult<usize>)
        default_ensures
            r matches Err(e) && is_io_error(e),
    {
        Err(self.get_mode().write_err())
    }

    fn truncate(&self, size: usize) -> (r: KResult<usize>)
        default_ensures
            r matches Err(e) && is_io_error(e),
    {
        Err(self.get_mode().truncate_err())
    }

    fn create(&self, name: &str) -> (r: KResult<Self::Res>)
        default_ensures
            r matches Err(e) && is_name_error(e),
    {
        Err(self.get_mode().create_err())
    }

    fn lookup(&self, name: &str) -> (r: KResult<Self::Res>)
        default_ensures
            r matches Err(e) && is_name_error(e),
    {
        Err(self.get_mode().lookup_err())
    }

    fn mknod(&self, name: &str, devid: DeviceId) -> (r: KResult<()>)
        default_ensures
            r matches Err(e) && is_node_error(e),
    {
        Err(self.get_mode().mknod_err())
    }

    fn link(&self, from: &Self::Res, to: &str) -> (r: KResult<()>)
        default_ensures
            r matches Err(e) && is_name_error(e),
    {
        Err(self.get_mode().link_err())
    }

    fn unlink(&self, to: &str) -> (r: KResult<()>)
        default_ensures
            r matches Err(e) && is_name_error(e),
    {
        Err(self.get_mode().unlink_err())
    }

    fn mkdir(&self, to: &str) -> (r: KResult<()>)
        default_ensures
            r matches Err(e) && is_name_error(e),
    {
        Err(self.get_mode().mkdir_err())
    }

    fn rmdir(&self, to: &str) -> (r: KResult<()>)
        default_ensures
            r matches Err(e) && is_name_error(e),
    {
        Err(self.get_mode().rmdir_err())
    }

    /// The entry of the directory at the offset `off`, and the size of the
    /// entry: the next entry is at the offset that lies this much further.
    fn readdir(&self, off: usize) -> (r: KResult<(usize, DirEnt)>)
        default_ensures
            r matches Err(e) && is_name_error(e),
    {
        Err(self.get_mode().readdir_err())
    }
}

/// A file system whose objects are of the type `T`.
pub trait FileSystem<T: VNode> {
    /// The name of the kind of file system.
    fn get_type() -> &'static str;

    /// The object at the root of the file system.
    fn get_fs_root(&self) -> T;

    /// Takes the file system out of use.
    fn unmount(&mut self);

    /// The object with the number `vnode_num`.
    fn get_vnode(&self, vnode_num: InodeNum) -> T;
}

} // verus!
