//! The filesystem at boot: the directories and files that every kernel
//! starts with.

use vstd::prelude::*;
use vstd::string::*;
use crate::errno::Errno;
use crate::file::FileOps;
use crate::kernel::Kernel;
use crate::memfile::{MemFile, lemma_write_rewind_read};
use crate::store::Backend;
use crate::vfs::mount::init_mount_table;
use crate::vfs::ops::{vfs_create_file, vfs_mkdir};
use crate::vfs::path::{Scan, components, scan, scan_start, scan_step};
use crate::fd::Descriptors;
use crate::kernel::{lemma_swept_in, swept_in};
use crate::store::{BackendView, Slots, backend_at, filled, lemma_next_slot, live, next_slot};
use crate::memfile::MemFileView;
use crate::vfs::tree::{
    Components,
    Entries,
    Tree,
    absent,
    dirs_only,
    first_at,
    lemma_with_dir_beside,
    lemma_with_dir_under,
    lemma_with_file_new,
    lemma_with_file_under,
    leads_to,
    lemma_create_keeps,
    lemma_create_succeeds,
    lemma_create_then_resolve,
    lemma_mkdir_keeps,
    lemma_mkdir_succeeds,
    lemma_mkdir_then_resolve,
    lemma_resolved_is_mentioned,
    resolved,
    walk,
    with_dir,
    with_file,
};

verus! {

/// The content of `/etc/hostname` at boot: `bulldog` and a newline.
pub open spec fn hostname_bytes() -> Seq<u8> {
    seq![0x62u8, 0x75u8, 0x6cu8, 0x6cu8, 0x64u8, 0x6fu8, 0x67u8, 0x0au8]
}

/// The components of `/etc`.
pub open spec fn path_etc() -> Components {
    seq![seq![0x65u8, 0x74u8, 0x63u8]]
}

/// The path `/etc` splits into the components of `path_etc`.
pub proof fn lemma_path_etc()
    ensures
        components("/etc".spec_bytes()) == path_etc(),
{
    reveal_strlit("/etc");
    let s = "/etc";
    assert(is_ascii(s));
    is_ascii_spec_bytes(s);
    let b0 = Seq::<u8>::empty();
    let b1 = b0.push(0x2fu8);
    let b2 = b1.push(0x65u8);
    let b3 = b2.push(0x74u8);
    let b4 = b3.push(0x63u8);
    assert(s.spec_bytes() =~= b4);
    assert(scan(scan_start(), b0) == scan_start());
    lemma_scan_push(scan_start(), b0, 0x2fu8);
    assert(scan(scan_start(), b1).done =~= Seq::<Seq<u8>>::empty() && scan(scan_start(), b1).open =~= Seq::<u8>::empty());
    lemma_scan_push(scan_start(), b1, 0x65u8);
    assert(scan(scan_start(), b2).done =~= Seq::<Seq<u8>>::empty() && scan(scan_start(), b2).open =~= seq![0x65u8]);
    lemma_scan_push(scan_start(), b2, 0x74u8);
    assert(scan(scan_start(), b3).done =~= Seq::<Seq<u8>>::empty() && scan(scan_start(), b3).open =~= seq![0x65u8, 0x74u8]);
    lemma_scan_push(scan_start(), b3, 0x63u8);
    assert(scan(scan_start(), b4).done =~= Seq::<Seq<u8>>::empty() && scan(scan_start(), b4).open =~= seq![0x65u8, 0x74u8, 0x63u8]);
    assert(components(s.spec_bytes()) =~= path_etc());
}

/// The components of `/etc/init`.
pub open spec fn path_etc_init() -> Components {
    seq![seq![0x65u8, 0x74u8, 0x63u8], seq![0x69u8, 0x6eu8, 0x69u8, 0x74u8]]
}

/// The path `/etc/init` splits into the components of `path_etc_init`.
pub proof fn lemma_path_etc_init()
    ensures
        components("/etc/init".spec_bytes()) == path_etc_init(),
{
    reveal_strlit("/etc/init");
    let s = "/etc/init";
    assert(is_ascii(s));
    is_ascii_spec_bytes(s);
    let b0 = Seq::<u8>::empty();
    let b1 = b0.push(0x2fu8);
    let b2 = b1.push(0x65u8);
    let b3 = b2.push(0x74u8);
    let b4 = b3.push(0x63u8);
    let b5 = b4.push(0x2fu8);
    let b6 = b5.push(0x69u8);
    let b7 = b6.push(0x6eu8);
    let b8 = b7.push(0x69u8);
    let b9 = b8.push(0x74u8);
    assert(s.spec_bytes() =~= b9);
    assert(scan(scan_start(), b0) == scan_start());
    lemma_scan_push(scan_start(), b0, 0x2fu8);
    assert(scan(scan_start(), b1).done =~= Seq::<Seq<u8>>::empty() && scan(scan_start(), b1).open =~= Seq::<u8>::empty());
    lemma_scan_push(scan_start(), b1, 0x65u8);
    assert(scan(scan_start(), b2).done =~= Seq::<Seq<u8>>::empty() && scan(scan_start(), b2).open =~= seq![0x65u8]);
    lemma_scan_push(scan_start(), b2, 0x74u8);
    assert(scan(scan_start(), b3).done =~= Seq::<Seq<u8>>::empty() && scan(scan_start(), b3).open =~= seq![0x65u8, 0x74u8]);
    lemma_scan_push(scan_start(), b3, 0x63u8);
    assert(scan(scan_start(), b4).done =~= Seq::<Seq<u8>>::empty() && scan(scan_start(), b4).open =~= seq![0x65u8, 0x74u8, 0x63u8]);
    lemma_scan_push(scan_start(), b4, 0x2fu8);
    assert(scan(scan_start(), b5).done =~= seq![seq![0x65u8, 0x74u8, 0x63u8]] && scan(scan_start(), b5).open =~= Seq::<u8>::empty());
    lemma_scan_push(scan_start(), b5, 0x69u8);
    assert(scan(scan_start(), b6).done =~= seq![seq![0x65u8, 0x74u8, 0x63u8]] && scan(scan_start(), b6).open =~= seq![0x69u8]);
    lemma_scan_push(scan_start(), b6, 0x6eu8);
    assert(scan(scan_start(), b7).done =~= seq![seq![0x65u8, 0x74u8, 0x63u8]] && scan(scan_start(), b7).open =~= seq![0x69u8, 0x6eu8]);
    lemma_scan_push(scan_start(), b7, 0x69u8);
    assert(scan(scan_start(), b8).done =~= seq![seq![0x65u8, 0x74u8, 0x63u8]] && scan(scan_start(), b8).open =~= seq![0x69u8, 0x6eu8, 0x69u8]);
    lemma_scan_push(scan_start(), b8, 0x74u8);
    assert(scan(scan_start(), b9).done =~= seq![seq![0x65u8, 0x74u8, 0x63u8]] && scan(scan_start(), b9).open =~= seq![0x69u8, 0x6eu8, 0x69u8, 0x74u8]);
    assert(components(s.spec_bytes()) =~= path_etc_init());
}

/// The components of `/usr/bin`.
pub open spec fn path_usr_bin() -> Components {
    seq![seq![0x75u8, 0x73u8, 0x72u8], seq![0x62u8, 0x69u8, 0x6eu8]]
}

/// The path `/usr/bin` splits into the components of `path_usr_bin`.
pub proof fn lemma_path_usr_bin()
    ensures
        components("/usr/bin".spec_bytes()) == path_usr_bin(),
{
    reveal_strlit("/usr/bin");
    let s = "/usr/bin";
    assert(is_ascii(s));
    is_ascii_spec_bytes(s);
    let b0 = Seq::<u8>::empty();
    let b1 = b0.push(0x2fu8);
    let b2 = b1.push(0x75u8);
    let b3 = b2.push(0x73u8);
    let b4 = b3.push(0x72u8);
    let b5 = b4.push(0x2fu8);
    let b6 = b5.push(0x62u8);
    let b7 = b6.push(0x69u8);
    let b8 = b7.push(0x6eu8);
    assert(s.spec_bytes() =~= b8);
    assert(scan(scan_start(), b0) == scan_start());
    lemma_scan_push(scan_start(), b0, 0x2fu8);
    assert(scan(scan_start(), b1).done =~= Seq::<Seq<u8>>::empty() && scan(scan_start(), b1).open =~= Seq::<u8>::empty());
    lemma_scan_push(scan_start(), b1, 0x75u8);
    assert(scan(scan_start(), b2).done =~= Seq::<Seq<u8>>::empty() && scan(scan_start(), b2).open =~= seq![0x75u8]);
    lemma_scan_push(scan_start(), b2, 0x73u8);
    assert(scan(scan_start(), b3).done =~= Seq::<Seq<u8>>::empty() && scan(scan_start(), b3).open =~= seq![0x75u8, 0x73u8]);
    lemma_scan_push(scan_start(), b3, 0x72u8);
    assert(scan(scan_start(), b4).done =~= Seq::<Seq<u8>>::empty() && scan(scan_start(), b4).open =~= seq![0x75u8, 0x73u8, 0x72u8]);
    lemma_scan_push(scan_start(), b4, 0x2fu8);
    assert(scan(scan_start(), b5).done =~= seq![seq![0x75u8, 0x73u8, 0x72u8]] && scan(scan_start(), b5).open =~= Seq::<u8>::empty());
    lemma_scan_push(scan_start(), b5, 0x62u8);
    assert(scan(scan_start(), b6).done =~= seq![seq![0x75u8, 0x73u8, 0x72u8]] && scan(scan_start(), b6).open =~= seq![0x62u8]);
    lemma_scan_push(scan_start(), b6, 0x69u8);
    assert(scan(scan_start(), b7).done =~= seq![seq![0x75u8, 0x73u8, 0x72u8]] && scan(scan_start(), b7).open =~= seq![0x62u8, 0x69u8]);
    lemma_scan_push(scan_start(), b7, 0x6eu8);
    assert(scan(scan_start(), b8).done =~= seq![seq![0x75u8, 0x73u8, 0x72u8]] && scan(scan_start(), b8).open =~= seq![0x62u8, 0x69u8, 0x6eu8]);
    assert(components(s.spec_bytes()) =~= path_usr_bin());
}

/// The components of `/var/log`.
pub open spec fn path_var_log() -> Components {
    seq![seq![0x76u8, 0x61u8, 0x72u8], seq![0x6cu8, 0x6fu8, 0x67u8]]
}

/// The path `/var/log` splits into the components of `path_var_log`.
pub proof fn lemma_path_var_log()
    ensures
        components("/var/log".spec_bytes()) == path_var_log(),
{
    reveal_strlit("/var/log");
    let s = "/var/log";
    assert(is_ascii(s));
    is_ascii_spec_bytes(s);
    let b0 = Seq::<u8>::empty();
    let b1 = b0.push(0x2fu8);
    let b2 = b1.push(0x76u8);
    let b3 = b2.push(0x61u8);
    let b4 = b3.push(0x72u8);
    let b5 = b4.push(0x2fu8);
    let b6 = b5.push(0x6cu8);
    let b7 = b6.push(0x6fu8);
    let b8 = b7.push(0x67u8);
    assert(s.spec_bytes() =~= b8);
    assert(scan(scan_start(), b0) == scan_start());
    lemma_scan_push(scan_start(), b0, 0x2fu8);
    assert(scan(scan_start(), b1).done =~= Seq::<Seq<u8>>::empty() && scan(scan_start(), b1).open =~= Seq::<u8>::empty());
    lemma_scan_push(scan_start(), b1, 0x76u8);
    assert(scan(scan_start(), b2).done =~= Seq::<Seq<u8>>::empty() && scan(scan_start(), b2).open =~= seq![0x76u8]);
    lemma_scan_push(scan_start(), b2, 0x61u8);
    assert(scan(scan_start(), b3).done =~= Seq::<Seq<u8>>::empty() && scan(scan_start(), b3).open =~= seq![0x76u8, 0x61u8]);
    lemma_scan_push(scan_start(), b3, 0x72u8);
    assert(scan(scan_start(), b4).done =~= Seq::<Seq<u8>>::empty() && scan(scan_start(), b4).open =~= seq![0x76u8, 0x61u8, 0x72u8]);
    lemma_scan_push(scan_start(), b4, 0x2fu8);
    assert(scan(scan_start(), b5).done =~= seq![seq![0x76u8, 0x61u8, 0x72u8]] && scan(scan_start(), b5).open =~= Seq::<u8>::empty());
    lemma_scan_push(scan_start(), b5, 0x6cu8);
    assert(scan(scan_start(), b6).done =~= seq![seq![0x76u8, 0x61u8, 0x72u8]] && scan(scan_start(), b6).open =~= seq![0x6cu8]);
    lemma_scan_push(scan_start(), b6, 0x6fu8);
    assert(scan(scan_start(), b7).done =~= seq![seq![0x76u8, 0x61u8, 0x72u8]] && scan(scan_start(), b7).open =~= seq![0x6cu8, 0x6fu8]);
    lemma_scan_push(scan_start(), b7, 0x67u8);
    assert(scan(scan_start(), b8).done =~= seq![seq![0x76u8, 0x61u8, 0x72u8]] && scan(scan_start(), b8).open =~= seq![0x6cu8, 0x6fu8, 0x67u8]);
    assert(components(s.spec_bytes()) =~= path_var_log());
}

/// The components of `/etc/hostname`.
pub open spec fn path_etc_hostname() -> Components {
    seq![seq![0x65u8, 0x74u8, 0x63u8], seq![0x68u8, 0x6fu8, 0x73u8, 0x74u8, 0x6eu8, 0x61u8, 0x6du8, 0x65u8]]
}

/// The path `/etc/hostname` splits into the components of `path_etc_hostname`.
pub proof fn lemma_path_etc_hostname()
    ensures
        components("/etc/hostname".spec_bytes()) == path_etc_hostname(),
{
    reveal_strlit("/etc/hostname");
    let s = "/etc/hostname";
    assert(is_ascii(s));
    is_ascii_spec_bytes(s);
    let b0 = Seq::<u8>::empty();
    let b1 = b0.push(0x2fu8);
    let b2 = b1.push(0x65u8);
    let b3 = b2.push(0x74u8);
    let b4 = b3.push(0x63u8);
    let b5 = b4.push(0x2fu8);
    let b6 = b5.push(0x68u8);
    let b7 = b6.push(0x6fu8);
    let b8 = b7.push(0x73u8);
    let b9 = b8.push(0x74u8);
    let b10 = b9.push(0x6eu8);
    let b11 = b10.push(0x61u8);
    let b12 = b11.push(0x6du8);
    let b13 = b12.push(0x65u8);
    assert(s.spec_bytes() =~= b13);
    assert(scan(scan_start(), b0) == scan_start());
    lemma_scan_push(scan_start(), b0, 0x2fu8);
    assert(scan(scan_start(), b1).done =~= Seq::<Seq<u8>>::empty() && scan(scan_start(), b1).open =~= Seq::<u8>::empty());
    lemma_scan_push(scan_start(), b1, 0x65u8);
    assert(scan(scan_start(), b2).done =~= Seq::<Seq<u8>>::empty() && scan(scan_start(), b2).open =~= seq![0x65u8]);
    lemma_scan_push(scan_start(), b2, 0x74u8);
    assert(scan(scan_start(), b3).done =~= Seq::<Seq<u8>>::empty() && scan(scan_start(), b3).open =~= seq![0x65u8, 0x74u8]);
    lemma_scan_push(scan_start(), b3, 0x63u8);
    assert(scan(scan_start(), b4).done =~= Seq::<Seq<u8>>::empty() && scan(scan_start(), b4).open =~= seq![0x65u8, 0x74u8, 0x63u8]);
    lemma_scan_push(scan_start(), b4, 0x2fu8);
    assert(scan(scan_start(), b5).done =~= seq![seq![0x65u8, 0x74u8, 0x63u8]] && scan(scan_start(), b5).open =~= Seq::<u8>::empty());
    lemma_scan_push(scan_start(), b5, 0x68u8);
    assert(scan(scan_start(), b6).done =~= seq![seq![0x65u8, 0x74u8, 0x63u8]] && scan(scan_start(), b6).open =~= seq![0x68u8]);
    lemma_scan_push(scan_start(), b6, 0x6fu8);
    assert(scan(scan_start(), b7).done =~= seq![seq![0x65u8, 0x74u8, 0x63u8]] && scan(scan_start(), b7).open =~= seq![0x68u8, 0x6fu8]);
    lemma_scan_push(scan_start(), b7, 0x73u8);
    assert(scan(scan_start(), b8).done =~= seq![seq![0x65u8, 0x74u8, 0x63u8]] && scan(scan_start(), b8).open =~= seq![0x68u8, 0x6fu8, 0x73u8]);
    lemma_scan_push(scan_start(), b8, 0x74u8);
    assert(scan(scan_start(), b9).done =~= seq![seq![0x65u8, 0x74u8, 0x63u8]] && scan(scan_start(), b9).open =~= seq![0x68u8, 0x6fu8, 0x73u8, 0x74u8]);
    lemma_scan_push(scan_start(), b9, 0x6eu8);
    assert(scan(scan_start(), b10).done =~= seq![seq![0x65u8, 0x74u8, 0x63u8]] && scan(scan_start(), b10).open =~= seq![0x68u8, 0x6fu8, 0x73u8, 0x74u8, 0x6eu8]);
    lemma_scan_push(scan_start(), b10, 0x61u8);
    assert(scan(scan_start(), b11).done =~= seq![seq![0x65u8, 0x74u8, 0x63u8]] && scan(scan_start(), b11).open =~= seq![0x68u8, 0x6fu8, 0x73u8, 0x74u8, 0x6eu8, 0x61u8]);
    lemma_scan_push(scan_start(), b11, 0x6du8);
    assert(scan(scan_start(), b12).done =~= seq![seq![0x65u8, 0x74u8, 0x63u8]] && scan(scan_start(), b12).open =~= seq![0x68u8, 0x6fu8, 0x73u8, 0x74u8, 0x6eu8, 0x61u8, 0x6du8]);
    lemma_scan_push(scan_start(), b12, 0x65u8);
    assert(scan(scan_start(), b13).done =~= seq![seq![0x65u8, 0x74u8, 0x63u8]] && scan(scan_start(), b13).open =~= seq![0x68u8, 0x6fu8, 0x73u8, 0x74u8, 0x6eu8, 0x61u8, 0x6du8, 0x65u8]);
    assert(components(s.spec_bytes()) =~= path_etc_hostname());
}

/// The components of `/var/log/test_write.txt`.
pub open spec fn path_test_write() -> Components {
    seq![seq![0x76u8, 0x61u8, 0x72u8], seq![0x6cu8, 0x6fu8, 0x67u8], seq![0x74u8, 0x65u8, 0x73u8, 0x74u8, 0x5fu8, 0x77u8, 0x72u8, 0x69u8, 0x74u8, 0x65u8, 0x2eu8, 0x74u8, 0x78u8, 0x74u8]]
}

/// The path `/var/log/test_write.txt` splits into the components of `path_test_write`.
pub proof fn lemma_path_test_write()
    ensures
        components("/var/log/test_write.txt".spec_bytes()) == path_test_write(),
{
    reveal_strlit("/var/log/test_write.txt");
    let s = "/var/log/test_write.txt";
    assert(is_ascii(s));
    is_ascii_spec_bytes(s);
    let b0 = Seq::<u8>::empty();
    let b1 = b0.push(0x2fu8);
    let b2 = b1.push(0x76u8);
    let b3 = b2.push(0x61u8);
    let b4 = b3.push(0x72u8);
    let b5 = b4.push(0x2fu8);
    let b6 = b5.push(0x6cu8);
    let b7 = b6.push(0x6fu8);
    let b8 = b7.push(0x67u8);
    let b9 = b8.push(0x2fu8);
    let b10 = b9.push(0x74u8);
    let b11 = b10.push(0x65u8);
    let b12 = b11.push(0x73u8);
    let b13 = b12.push(0x74u8);
    let b14 = b13.push(0x5fu8);
    let b15 = b14.push(0x77u8);
    let b16 = b15.push(0x72u8);
    let b17 = b16.push(0x69u8);
    let b18 = b17.push(0x74u8);
    let b19 = b18.push(0x65u8);
    let b20 = b19.push(0x2eu8);
    let b21 = b20.push(0x74u8);
    let b22 = b21.push(0x78u8);
    let b23 = b22.push(0x74u8);
    assert(s.spec_bytes() =~= b23);
    assert(scan(scan_start(), b0) == scan_start());
    lemma_scan_push(scan_start(), b0, 0x2fu8);
    assert(scan(scan_start(), b1).done =~= Seq::<Seq<u8>>::empty() && scan(scan_start(), b1).open =~= Seq::<u8>::empty());
    lemma_scan_push(scan_start(), b1, 0x76u8);
    assert(scan(scan_start(), b2).done =~= Seq::<Seq<u8>>::empty() && scan(scan_start(), b2).open =~= seq![0x76u8]);
    lemma_scan_push(scan_start(), b2, 0x61u8);
    assert(scan(scan_start(), b3).done =~= Seq::<Seq<u8>>::empty() && scan(scan_start(), b3).open =~= seq![0x76u8, 0x61u8]);
    lemma_scan_push(scan_start(), b3, 0x72u8);
    assert(scan(scan_start(), b4).done =~= Seq::<Seq<u8>>::empty() && scan(scan_start(), b4).open =~= seq![0x76u8, 0x61u8, 0x72u8]);
    lemma_scan_push(scan_start(), b4, 0x2fu8);
    assert(scan(scan_start(), b5).done =~= seq![seq![0x76u8, 0x61u8, 0x72u8]] && scan(scan_start(), b5).open =~= Seq::<u8>::empty());
    lemma_scan_push(scan_start(), b5, 0x6cu8);
    assert(scan(scan_start(), b6).done =~= seq![seq![0x76u8, 0x61u8, 0x72u8]] && scan(scan_start(), b6).open =~= seq![0x6cu8]);
    lemma_scan_push(scan_start(), b6, 0x6fu8);
    assert(scan(scan_start(), b7).done =~= seq![seq![0x76u8, 0x61u8, 0x72u8]] && scan(scan_start(), b7).open =~= seq![0x6cu8, 0x6fu8]);
    lemma_scan_push(scan_start(), b7, 0x67u8);
    assert(scan(scan_start(), b8).done =~= seq![seq![0x76u8, 0x61u8, 0x72u8]] && scan(scan_start(), b8).open =~= seq![0x6cu8, 0x6fu8, 0x67u8]);
    lemma_scan_push(scan_start(), b8, 0x2fu8);
    assert(scan(scan_start(), b9).done =~= seq![seq![0x76u8, 0x61u8, 0x72u8], seq![0x6cu8, 0x6fu8, 0x67u8]] && scan(scan_start(), b9).open =~= Seq::<u8>::empty());
    lemma_scan_push(scan_start(), b9, 0x74u8);
    assert(scan(scan_start(), b10).done =~= seq![seq![0x76u8, 0x61u8, 0x72u8], seq![0x6cu8, 0x6fu8, 0x67u8]] && scan(scan_start(), b10).open =~= seq![0x74u8]);
    lemma_scan_push(scan_start(), b10, 0x65u8);
    assert(scan(scan_start(), b11).done =~= seq![seq![0x76u8, 0x61u8, 0x72u8], seq![0x6cu8, 0x6fu8, 0x67u8]] && scan(scan_start(), b11).open =~= seq![0x74u8, 0x65u8]);
    lemma_scan_push(scan_start(), b11, 0x73u8);
    assert(scan(scan_start(), b12).done =~= seq![seq![0x76u8, 0x61u8, 0x72u8], seq![0x6cu8, 0x6fu8, 0x67u8]] && scan(scan_start(), b12).open =~= seq![0x74u8, 0x65u8, 0x73u8]);
    lemma_scan_push(scan_start(), b12, 0x74u8);
    assert(scan(scan_start(), b13).done =~= seq![seq![0x76u8, 0x61u8, 0x72u8], seq![0x6cu8, 0x6fu8, 0x67u8]] && scan(scan_start(), b13).open =~= seq![0x74u8, 0x65u8, 0x73u8, 0x74u8]);
    lemma_scan_push(scan_start(), b13, 0x5fu8);
    assert(scan(scan_start(), b14).done =~= seq![seq![0x76u8, 0x61u8, 0x72u8], seq![0x6cu8, 0x6fu8, 0x67u8]] && scan(scan_start(), b14).open =~= seq![0x74u8, 0x65u8, 0x73u8, 0x74u8, 0x5fu8]);
    lemma_scan_push(scan_start(), b14, 0x77u8);
    assert(scan(scan_start(), b15).done =~= seq![seq![0x76u8, 0x61u8, 0x72u8], seq![0x6cu8, 0x6fu8, 0x67u8]] && scan(scan_start(), b15).open =~= seq![0x74u8, 0x65u8, 0x73u8, 0x74u8, 0x5fu8, 0x77u8]);
    lemma_scan_push(scan_start(), b15, 0x72u8);
    assert(scan(scan_start(), b16).done =~= seq![seq![0x76u8, 0x61u8, 0x72u8], seq![0x6cu8, 0x6fu8, 0x67u8]] && scan(scan_start(), b16).open =~= seq![0x74u8, 0x65u8, 0x73u8, 0x74u8, 0x5fu8, 0x77u8, 0x72u8]);
    lemma_scan_push(scan_start(), b16, 0x69u8);
    assert(scan(scan_start(), b17).done =~= seq![seq![0x76u8, 0x61u8, 0x72u8], seq![0x6cu8, 0x6fu8, 0x67u8]] && scan(scan_start(), b17).open =~= seq![0x74u8, 0x65u8, 0x73u8, 0x74u8, 0x5fu8, 0x77u8, 0x72u8, 0x69u8]);
    lemma_scan_push(scan_start(), b17, 0x74u8);
    assert(scan(scan_start(), b18).done =~= seq![seq![0x76u8, 0x61u8, 0x72u8], seq![0x6cu8, 0x6fu8, 0x67u8]] && scan(scan_start(), b18).open =~= seq![0x74u8, 0x65u8, 0x73u8, 0x74u8, 0x5fu8, 0x77u8, 0x72u8, 0x69u8, 0x74u8]);
    lemma_scan_push(scan_start(), b18, 0x65u8);
    assert(scan(scan_start(), b19).done =~= seq![seq![0x76u8, 0x61u8, 0x72u8], seq![0x6cu8, 0x6fu8, 0x67u8]] && scan(scan_start(), b19).open =~= seq![0x74u8, 0x65u8, 0x73u8, 0x74u8, 0x5fu8, 0x77u8, 0x72u8, 0x69u8, 0x74u8, 0x65u8]);
    lemma_scan_push(scan_start(), b19, 0x2eu8);
    assert(scan(scan_start(), b20).done =~= seq![seq![0x76u8, 0x61u8, 0x72u8], seq![0x6cu8, 0x6fu8, 0x67u8]] && scan(scan_start(), b20).open =~= seq![0x74u8, 0x65u8, 0x73u8, 0x74u8, 0x5fu8, 0x77u8, 0x72u8, 0x69u8, 0x74u8, 0x65u8, 0x2eu8]);
    lemma_scan_push(scan_start(), b20, 0x74u8);
    assert(scan(scan_start(), b21).done =~= seq![seq![0x76u8, 0x61u8, 0x72u8], seq![0x6cu8, 0x6fu8, 0x67u8]] && scan(scan_start(), b21).open =~= seq![0x74u8, 0x65u8, 0x73u8, 0x74u8, 0x5fu8, 0x77u8, 0x72u8, 0x69u8, 0x74u8, 0x65u8, 0x2eu8, 0x74u8]);
    lemma_scan_push(scan_start(), b21, 0x78u8);
    assert(scan(scan_start(), b22).done =~= seq![seq![0x76u8, 0x61u8, 0x72u8], seq![0x6cu8, 0x6fu8, 0x67u8]] && scan(scan_start(), b22).open =~= seq![0x74u8, 0x65u8, 0x73u8, 0x74u8, 0x5fu8, 0x77u8, 0x72u8, 0x69u8, 0x74u8, 0x65u8, 0x2eu8, 0x74u8, 0x78u8]);
    lemma_scan_push(scan_start(), b22, 0x74u8);
    assert(scan(scan_start(), b23).done =~= seq![seq![0x76u8, 0x61u8, 0x72u8], seq![0x6cu8, 0x6fu8, 0x67u8]] && scan(scan_start(), b23).open =~= seq![0x74u8, 0x65u8, 0x73u8, 0x74u8, 0x5fu8, 0x77u8, 0x72u8, 0x69u8, 0x74u8, 0x65u8, 0x2eu8, 0x74u8, 0x78u8, 0x74u8]);
    assert(components(s.spec_bytes()) =~= path_test_write());
}

/// Scanning one more byte is one more step of the scan.
proof fn lemma_scan_push(st: Scan, s: Seq<u8>, b: u8)
    ensures
        scan(st, s.push(b)) == scan_step(scan(st, s), b),
{
    assert(s.push(b).drop_last() =~= s);
}

/// The path leads to a directory.
pub open spec fn is_dir_at(t: Tree, path: Components) -> bool {
    walk(t, path) matches Ok(node) && node is Dir
}

/// The path resolves to a file in memory that holds `data`, with its
/// cursor at the start.
pub open spec fn is_file_at(k: &Kernel, path: Components, data: Seq<u8>) -> bool {
    resolved(k.mounts.root(), path) matches Ok(h) && live(k.files@, h as int) && backend_at(
        k.files@,
        h as int,
    ) == BackendView::Mem(MemFileView { data, offset: 0 })
}

/// What the filesystem holds after boot: the four directories, the file
/// with the host name, and the empty log file.
pub open spec fn boot_tree(k: &Kernel) -> bool {
    &&& is_dir_at(k.mounts.root(), path_etc())
    &&& is_dir_at(k.mounts.root(), path_etc_init())
    &&& is_dir_at(k.mounts.root(), path_usr_bin())
    &&& is_dir_at(k.mounts.root(), path_var_log())
    &&& is_file_at(k, path_etc_hostname(), hostname_bytes())
    &&& is_file_at(k, path_test_write(), Seq::empty())
}

/// The four directories of boot exist: nothing but directories stands in
/// their way.
pub open spec fn has_dirs(t: Tree) -> bool {
    &&& is_dir_at(t, path_etc())
    &&& is_dir_at(t, path_etc_init())
    &&& is_dir_at(t, path_usr_bin())
    &&& is_dir_at(t, path_var_log())
}

/// The paths of the two files of boot are a start of none of the
/// directories of boot, and the path of the log file is no start of the
/// path of the host name.
proof fn lemma_boot_paths_apart()
    ensures
        !leads_to(path_etc_hostname(), path_etc()),
        !leads_to(path_etc_hostname(), path_etc_init()),
        !leads_to(path_etc_hostname(), path_usr_bin()),
        !leads_to(path_etc_hostname(), path_var_log()),
        !leads_to(path_test_write(), path_etc()),
        !leads_to(path_test_write(), path_etc_init()),
        !leads_to(path_test_write(), path_usr_bin()),
        !leads_to(path_test_write(), path_var_log()),
        !leads_to(path_test_write(), path_etc_hostname()),
        path_etc_hostname().drop_last() == path_etc(),
        path_test_write().drop_last() == path_var_log(),
{
    let host = path_etc_hostname();
    assert(host[1].len() == 8);
    assert(path_etc_init().take(2)[1].len() == 4);
    assert(path_usr_bin().take(2)[1].len() == 3);
    assert(path_var_log().take(2)[1].len() == 3);
    assert(host.drop_last() =~= path_etc());
    assert(path_test_write().drop_last() =~= path_var_log());
}

/// After a file was created at a path of boot in a tree with the
/// directories of boot, the directories are still there.
proof fn lemma_dirs_stay(t: Tree, made: Components, h: nat)
    requires
        has_dirs(t),
        with_file(t, made, h) is Ok,
        !leads_to(made, path_etc()),
        !leads_to(made, path_etc_init()),
        !leads_to(made, path_usr_bin()),
        !leads_to(made, path_var_log()),
    ensures
        has_dirs(with_file(t, made, h)->Ok_0),
{
    lemma_create_keeps(t, made, h, path_etc());
    lemma_create_keeps(t, made, h, path_etc_init());
    lemma_create_keeps(t, made, h, path_usr_bin());
    lemma_create_keeps(t, made, h, path_var_log());
}

/// The directories of boot, made one after the other in an empty root, all
/// exist at the end.
proof fn lemma_boot_dirs(t0: Tree, t1: Tree, t2: Tree, t3: Tree, t4: Tree)
    requires
        t0 == Tree::Dir(Seq::empty()),
        with_dir(t0, path_etc()) matches Ok(t) ==> t1 == t,
        with_dir(t1, path_etc_init()) matches Ok(t) ==> t2 == t,
        with_dir(t2, path_usr_bin()) matches Ok(t) ==> t3 == t,
        with_dir(t3, path_var_log()) matches Ok(t) ==> t4 == t,
    ensures
        has_dirs(t4),
{
    assert(dirs_only(t0));
    lemma_mkdir_succeeds(t0, path_etc());
    lemma_mkdir_then_resolve(t0, path_etc());
    lemma_mkdir_succeeds(t1, path_etc_init());
    lemma_mkdir_then_resolve(t1, path_etc_init());
    lemma_mkdir_keeps(t1, path_etc_init(), path_etc());
    lemma_mkdir_succeeds(t2, path_usr_bin());
    lemma_mkdir_then_resolve(t2, path_usr_bin());
    lemma_mkdir_keeps(t2, path_usr_bin(), path_etc());
    lemma_mkdir_keeps(t2, path_usr_bin(), path_etc_init());
    lemma_mkdir_succeeds(t3, path_var_log());
    lemma_mkdir_then_resolve(t3, path_var_log());
    lemma_mkdir_keeps(t3, path_var_log(), path_etc());
    lemma_mkdir_keeps(t3, path_var_log(), path_etc_init());
    lemma_mkdir_keeps(t3, path_var_log(), path_usr_bin());
}

/// The tree after an attempt to make a directory: with the directory where
/// it can be made, as it was where a file is in the way.
pub open spec fn made(t: Tree, path: Components) -> Tree {
    match with_dir(t, path) {
        Ok(after) => after,
        Err(_) => t,
    }
}

/// The tree after the attempts to make the four directories of boot.
pub open spec fn boot_dirs(t: Tree) -> Tree {
    made(made(made(made(t, path_etc()), path_etc_init()), path_usr_bin()), path_var_log())
}

/// Tree and store after an attempt to create a file: with the file, its
/// backend in the next slot, and what nothing refers to any more torn
/// down; or both as they were where the file cannot be created.
pub open spec fn placed(
    state: (Tree, Slots),
    fds: Descriptors,
    path: Components,
    backend: BackendView,
) -> (Tree, Slots) {
    let h = next_slot(state.1);
    match with_file(state.0, path, h as nat) {
        Ok(after) => (after, swept_in(filled(state.1, h, backend), fds, after)),
        Err(_) => state,
    }
}

/// The file with the host name, as it is created.
pub open spec fn hostname_file() -> BackendView {
    BackendView::Mem(MemFileView { data: hostname_bytes(), offset: 0 })
}

/// The empty log file, as it is created.
pub open spec fn log_file() -> BackendView {
    BackendView::Mem(MemFileView { data: Seq::empty(), offset: 0 })
}

/// Tree and store after the directories of boot and the file with the
/// host name.
pub open spec fn with_hostname(t: Tree, slots: Slots, fds: Descriptors) -> (Tree, Slots) {
    placed((boot_dirs(t), slots), fds, path_etc_hostname(), hostname_file())
}

/// Tree and store after boot: after the directories and the two files, each
/// attempted in turn.
pub open spec fn booted(t: Tree, slots: Slots, fds: Descriptors) -> (Tree, Slots) {
    placed(with_hostname(t, slots, fds), fds, path_test_write(), log_file())
}

/// The tree that boot starts from: the root that is mounted, or the empty
/// root that is mounted first.
pub open spec fn start_tree(k: &Kernel) -> Tree {
    if k.mounts.mounted() {
        k.mounts.root()
    } else {
        Tree::Dir(Seq::empty())
    }
}

/// The tree of a first boot, whole: `etc` with `init` and `hostname`,
/// `usr` with `bin`, `var` with `log` and in it `test_write.txt`, and
/// nothing else. The files have the handles `host` and `log`.
pub open spec fn fresh_tree(host: nat, log: nat) -> Tree {
    let none = Tree::Dir(Seq::empty());
    Tree::Dir(
        seq![
            (
                path_etc()[0],
                Tree::Dir(
                    seq![
                        (path_etc_init()[1], none),
                        (path_etc_hostname()[1], Tree::File(host)),
                    ],
                ),
            ),
            (path_usr_bin()[0], Tree::Dir(seq![(path_usr_bin()[1], none)])),
            (
                path_var_log()[0],
                Tree::Dir(
                    seq![
                        (
                            path_var_log()[1],
                            Tree::Dir(seq![(path_test_write()[2], Tree::File(log))]),
                        ),
                    ],
                ),
            ),
        ],
    )
}

/// A directory made in an empty directory is its only child.
proof fn lemma_leaf_dir(name: Seq<u8>)
    ensures
        with_dir(Tree::Dir(Seq::empty()), seq![name]) == Ok::<Tree, Errno>(
            Tree::Dir(seq![(name, Tree::Dir(Seq::empty()))]),
        ),
{
    let none = Tree::Dir(Seq::empty());
    let comps = seq![name];
    assert(comps.skip(1) =~= Seq::<Seq<u8>>::empty());
    assert(with_dir(none, comps.skip(1)) == Ok::<Tree, Errno>(none));
    assert(absent(Seq::<(Seq<u8>, Tree)>::empty(), comps[0]));
    lemma_with_dir_beside(Seq::empty(), comps, none);
    assert(Seq::<(Seq<u8>, Tree)>::empty().push((name, none)) =~= seq![(name, none)]);
}

/// On an empty root, boot builds exactly the tree of a first boot.
proof fn lemma_fresh_tree(host: nat, log: nat)
    ensures
        boot_dirs(Tree::Dir(Seq::empty())) == fresh_dirs(),
        with_file(fresh_dirs(), path_etc_hostname(), host) == Ok::<Tree, Errno>(
            fresh_with_hostname(host),
        ),
        with_file(fresh_with_hostname(host), path_test_write(), log) == Ok::<Tree, Errno>(
            fresh_tree(host, log),
        ),
{
    let none = Tree::Dir(Seq::empty());
    let etc = path_etc()[0];
    let init = path_etc_init()[1];
    let usr = path_usr_bin()[0];
    let bin = path_usr_bin()[1];
    let var = path_var_log()[0];
    let log_name = path_var_log()[1];
    let hostname = path_etc_hostname()[1];
    let tw = path_test_write()[2];
    assert(etc[0] != usr[0] && etc[0] != var[0] && usr[0] != var[0]);
    assert(init.len() != hostname.len());
    // /etc
    let e1: Entries = seq![(etc, none)];
    lemma_leaf_dir(etc);
    assert(path_etc() =~= seq![etc]);
    let t1 = Tree::Dir(e1);
    assert(made(none, path_etc()) == t1);
    // /etc/init
    lemma_leaf_dir(init);
    let etc2 = Tree::Dir(seq![(init, none)]);
    assert(path_etc_init().skip(1) =~= seq![init]);
    assert(first_at(e1, etc, 0));
    lemma_with_dir_under(e1, 0, path_etc_init(), etc2);
    let e2: Entries = seq![(etc, etc2)];
    assert(e1.update(0, (etc, etc2)) =~= e2);
    let t2 = Tree::Dir(e2);
    assert(made(t1, path_etc_init()) == t2);
    // /usr/bin
    lemma_leaf_dir(bin);
    let usr3 = Tree::Dir(seq![(bin, none)]);
    assert(path_usr_bin().skip(1) =~= seq![bin]);
    assert(absent(e2, usr)) by {
        assert forall|i: int| 0 <= i < e2.len() implies (#[trigger] e2[i]).0 != usr by {
            assert(e2[i].0[0] != usr[0]);
        }
    }
    lemma_with_dir_beside(e2, path_usr_bin(), usr3);
    let e3: Entries = seq![(etc, etc2), (usr, usr3)];
    assert(e2.push((usr, usr3)) =~= e3);
    let t3 = Tree::Dir(e3);
    assert(made(t2, path_usr_bin()) == t3);
    // /var/log
    lemma_leaf_dir(log_name);
    let var4 = Tree::Dir(seq![(log_name, none)]);
    assert(path_var_log().skip(1) =~= seq![log_name]);
    assert(absent(e3, var)) by {
        assert forall|i: int| 0 <= i < e3.len() implies (#[trigger] e3[i]).0 != var by {
            assert(e3[i].0[0] != var[0]);
        }
    }
    lemma_with_dir_beside(e3, path_var_log(), var4);
    let e4: Entries = seq![(etc, etc2), (usr, usr3), (var, var4)];
    assert(e3.push((var, var4)) =~= e4);
    let t4 = Tree::Dir(e4);
    assert(made(t3, path_var_log()) == t4);
    assert(t4 == fresh_dirs());
    // /etc/hostname
    let in_etc: Entries = seq![(init, none)];
    assert(path_etc_hostname().skip(1) =~= seq![hostname]);
    assert(absent(in_etc, hostname)) by {
        assert forall|i: int| 0 <= i < in_etc.len() implies (#[trigger] in_etc[i]).0
            != hostname by {
            assert(in_etc[i].0.len() != hostname.len());
        }
    }
    lemma_with_file_new(in_etc, path_etc_hostname().skip(1), host);
    let etc5 = Tree::Dir(seq![(init, none), (hostname, Tree::File(host))]);
    assert(in_etc.push((hostname, Tree::File(host))) =~= seq![
        (init, none),
        (hostname, Tree::File(host)),
    ]);
    assert(first_at(e4, etc, 0));
    lemma_with_file_under(e4, 0, path_etc_hostname(), host, etc5);
    let e5: Entries = seq![(etc, etc5), (usr, usr3), (var, var4)];
    assert(e4.update(0, (etc, etc5)) =~= e5);
    assert(Tree::Dir(e5) == fresh_with_hostname(host));
    // /var/log/test_write.txt
    let rest = path_test_write().skip(1);
    assert(rest =~= seq![log_name, tw]);
    assert(rest.skip(1) =~= seq![tw]);
    assert(absent(Seq::<(Seq<u8>, Tree)>::empty(), tw));
    lemma_with_file_new(Seq::empty(), rest.skip(1), log);
    let log6 = Tree::Dir(seq![(tw, Tree::File(log))]);
    assert(Seq::<(Seq<u8>, Tree)>::empty().push((tw, Tree::File(log))) =~= seq![
        (tw, Tree::File(log)),
    ]);
    let in_var: Entries = seq![(log_name, none)];
    assert(first_at(in_var, log_name, 0));
    lemma_with_file_under(in_var, 0, rest, log, log6);
    let var6 = Tree::Dir(seq![(log_name, log6)]);
    assert(in_var.update(0, (log_name, log6)) =~= seq![(log_name, log6)]);
    assert(first_at(e5, var, 2)) by {
        assert(e5[0].0[0] != var[0]);
        assert(e5[1].0[0] != var[0]);
    }
    lemma_with_file_under(e5, 2, path_test_write(), log, var6);
    let e6: Entries = seq![(etc, etc5), (usr, usr3), (var, var6)];
    assert(e5.update(2, (var, var6)) =~= e6);
    assert(Tree::Dir(e6) == fresh_tree(host, log));
}

/// The tree of a first boot after its directories were made.
pub open spec fn fresh_dirs() -> Tree {
    let none = Tree::Dir(Seq::empty());
    Tree::Dir(
        seq![
            (path_etc()[0], Tree::Dir(seq![(path_etc_init()[1], none)])),
            (path_usr_bin()[0], Tree::Dir(seq![(path_usr_bin()[1], none)])),
            (path_var_log()[0], Tree::Dir(seq![(path_var_log()[1], none)])),
        ],
    )
}

/// The tree of a first boot after the file with the host name was created.
pub open spec fn fresh_with_hostname(host: nat) -> Tree {
    let none = Tree::Dir(Seq::empty());
    Tree::Dir(
        seq![
            (
                path_etc()[0],
                Tree::Dir(
                    seq![
                        (path_etc_init()[1], none),
                        (path_etc_hostname()[1], Tree::File(host)),
                    ],
                ),
            ),
            (path_usr_bin()[0], Tree::Dir(seq![(path_usr_bin()[1], none)])),
            (path_var_log()[0], Tree::Dir(seq![(path_var_log()[1], none)])),
        ],
    )
}

/// Mounts the root, if none is mounted, and fills it: the directories
/// `/etc`, `/etc/init`, `/usr/bin` and `/var/log`, the file `/etc/hostname`
/// with the host name, and the empty file `/var/log/test_write.txt`, each
/// attempted in turn. What cannot be made, because a file is in its way, is
/// left out. Where the four directories can be made, all six exist
/// afterwards; on a first boot the tree holds them and nothing else.
pub fn vfs_init(k: &mut Kernel)
    requires
        old(k).wf(),
    ensures
        final(k).wf(),
        final(k).mounts.mounted(),
        final(k).fds@ == old(k).fds@,
        final(k).exit_code == old(k).exit_code,
        final(k).heap == old(k).heap,
        final(k).syscalls == old(k).syscalls,
        old(k).files@.len() <= final(k).files@.len() <= old(k).files@.len() + 2,
        (final(k).mounts.root(), final(k).files@) == booted(
            start_tree(old(k)),
            old(k).files@,
            old(k).fds@,
        ),
        has_dirs(boot_dirs(start_tree(old(k)))) ==> boot_tree(final(k)),
        !old(k).mounts.mounted() ==> boot_tree(final(k)) && final(k).mounts.root() == fresh_tree(
            next_slot(old(k).files@) as nat,
            next_slot(with_hostname(start_tree(old(k)), old(k).files@, old(k).fds@).1) as nat,
        ),
{
    let ghost fresh = !k.mounts.mounted();
    let ghost start = start_tree(k);
    let ghost fds = k.fds@;
    init_mount_table(&mut k.mounts);
    let ghost t0 = k.mounts.root();
    proof {
        lemma_path_etc();
        lemma_path_etc_init();
        lemma_path_usr_bin();
        lemma_path_var_log();
        lemma_path_etc_hostname();
        lemma_path_test_write();
        lemma_boot_paths_apart();
    }
    let _ = vfs_mkdir(&mut k.mounts, "/etc");
    let ghost t1 = k.mounts.root();
    let _ = vfs_mkdir(&mut k.mounts, "/etc/init");
    let ghost t2 = k.mounts.root();
    let _ = vfs_mkdir(&mut k.mounts, "/usr/bin");
    let ghost t3 = k.mounts.root();
    let _ = vfs_mkdir(&mut k.mounts, "/var/log");
    let ghost t4 = k.mounts.root();
    let ghost files4 = k.files@;
    let ghost h1 = next_slot(files4);
    let ghost dirs = has_dirs(t4);
    proof {
        assert(t0 == start);
        assert(t1 == made(t0, path_etc()));
        assert(t2 == made(t1, path_etc_init()));
        assert(t3 == made(t2, path_usr_bin()));
        assert(t4 == made(t3, path_var_log()));
        assert(t4 == boot_dirs(start));
        lemma_next_slot(files4);
        if fresh {
            lemma_boot_dirs(t0, t1, t2, t3, t4);
        }
        if dirs {
            lemma_create_succeeds(t4, path_etc_hostname(), h1 as nat);
        }
    }
    let name: Vec<u8> = vec![0x62u8, 0x75u8, 0x6cu8, 0x6cu8, 0x64u8, 0x6fu8, 0x67u8, 0x0au8];
    let hostname = Backend::Mem(MemFile::new(name));
    proof {
        assert(name@ =~= hostname_bytes());
        assert(hostname@ == hostname_file());
    }
    let _ = vfs_create_file(k, "/etc/hostname", hostname);
    let ghost t5 = k.mounts.root();
    let ghost files5 = k.files@;
    let ghost h2 = next_slot(files5);
    proof {
        lemma_swept_in(filled(files4, h1, hostname_file()), fds, &k.mounts);
        assert((t5, files5) == with_hostname(start, files4, fds));
        lemma_next_slot(files5);
        if dirs {
            lemma_create_then_resolve(t4, path_etc_hostname(), h1 as nat);
            lemma_resolved_is_mentioned(t5, path_etc_hostname());
            lemma_dirs_stay(t4, path_etc_hostname(), h1 as nat);
            assert(is_file_at(k, path_etc_hostname(), hostname_bytes()));
            lemma_create_succeeds(t5, path_test_write(), h2 as nat);
        }
    }
    let empty = Backend::Mem(MemFile::new(Vec::new()));
    proof {
        assert(empty@ == log_file());
    }
    let _ = vfs_create_file(k, "/var/log/test_write.txt", empty);
    proof {
        let t6 = k.mounts.root();
        lemma_swept_in(filled(files5, h2, log_file()), fds, &k.mounts);
        assert((t6, k.files@) == booted(start, files4, fds));
        if dirs {
            lemma_create_then_resolve(t5, path_test_write(), h2 as nat);
            lemma_resolved_is_mentioned(t6, path_test_write());
            lemma_dirs_stay(t5, path_test_write(), h2 as nat);
            lemma_create_keeps(t5, path_test_write(), h2 as nat, path_etc_hostname());
            lemma_resolved_is_mentioned(t6, path_etc_hostname());
            assert(is_file_at(k, path_test_write(), Seq::empty()));
            assert(is_file_at(k, path_etc_hostname(), hostname_bytes()));
        }
        if fresh {
            lemma_fresh_tree(h1 as nat, h2 as nat);
        }
    }
    let _ = vfs_test_write();
}

/// A self-test of the in-memory file: writes `abc` to an empty file,
/// rewinds, reads three bytes, and tells whether they are `abc`. They
/// always are.
pub fn vfs_test_write() -> (ok: bool)
    ensures
        ok,
{
    let mut f = MemFile::new(Vec::new());
    let data: Vec<u8> = vec![0x61u8, 0x62u8, 0x63u8];
    let ghost before = f@;
    let wrote = f.write(data.as_slice());
    f.rewind();
    let mut buf: Vec<u8> = vec![0u8, 0u8, 0u8];
    proof {
        lemma_write_rewind_read(before, data@);
    }
    let got = f.read(buf.as_mut_slice());
    let same = buf[0] == data[0] && buf[1] == data[1] && buf[2] == data[2];
    let wrote_all = match wrote {
        Ok(n) => n == 3,
        Err(_) => false,
    };
    let got_all = match got {
        Ok(n) => n == 3,
        Err(_) => false,
    };
    wrote_all && got_all && same
}

} // verus!
