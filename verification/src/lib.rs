pub mod addon_course_laws;
pub mod addon_laws;
pub mod addons;
pub mod bytes;
pub mod cli;
pub mod cmdline;
pub mod companions;
pub mod course_laws;
pub mod digest;
pub mod discovery;
pub mod discovery_laws;
pub mod dropin_paths;
pub mod format_laws;
pub mod gc;
pub mod gc_laws;
pub mod json;
pub mod lock;
pub mod lock_laws;
pub mod lock_run;
pub mod measure;
pub mod measure_laws;
pub mod path;
pub mod pcrlock;
pub mod pcrlock_laws;
pub mod pe;
pub mod platform_laws;
pub mod random_seed;
pub mod section_laws;
pub mod seed_course_laws;
pub mod seed_laws;
pub mod smbios;
pub mod smbios_laws;
pub mod status;
pub mod stub;
pub mod text;
pub mod text_laws;
pub mod ucs2;
pub mod unified_sections;
pub mod vmm;
