pub mod audio;
pub mod polkit_dialog;
