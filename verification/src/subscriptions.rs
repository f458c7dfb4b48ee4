pub mod polkit_agent_helper;
pub mod osd_inhibit;
