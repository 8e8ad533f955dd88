pub mod line_ending;
pub mod locale;
pub mod shell;
pub mod prompt;
