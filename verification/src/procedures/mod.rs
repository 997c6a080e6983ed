//! The procedures that the init process goes through. Each is a sequence of steps: `call`
//! gives the call that a step makes, `reply` the step that follows the answer to it.
pub mod apply_rest_namespaces;
pub mod do_pivot_root;
pub mod listen_fds;
pub mod masked_path;
pub mod move_root;
pub mod prepare_rootfs;
pub mod readonly_path;
pub mod readonly_root;
pub mod reopen_dev_null;
pub mod set_supplementary_gids;
pub mod sync_seccomp;
pub mod sysctl;
pub mod unmount_or_hide;
pub mod verify_cwd;
