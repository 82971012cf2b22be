pub mod floatbits;
pub mod text;
pub mod model;
pub mod library;
pub mod templates;
pub mod edits;
pub mod cue_slots;
pub mod readouts;
pub mod chips;
pub mod labels;
pub mod triggers;
pub mod presentation;
pub mod validation;
pub mod save;
pub mod scan;
pub mod palette;
pub mod selection;
pub mod preview;
pub mod presets;
pub mod assets;
pub mod scrub;
pub mod stage;
pub mod laws;
pub mod report_laws;
pub mod result_laws;
