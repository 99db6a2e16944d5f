use vstd::prelude::*;

use crate::text::{decimal_value, parse_u32, parses_as_u32, unsigned_digits};

verus! {

/// The image size used when the given one does not parse.
pub const FALLBACK_SIZE: u32 = 512;

/// The retry ceiling used when the given one does not parse.
pub const FALLBACK_MAX_TRIES: u32 = 1000;

/// Settings taken from the command line.
pub struct AppConfiguration {
    layers_dir: String,
    destination_dir: String,
    size: u32,
    max_tries: u32,
    cleanup: bool,
}

pub struct AppConfigView {
    pub layers_dir: Seq<char>,
    pub destination_dir: Seq<char>,
    pub size: u32,
    pub max_tries: u32,
    pub cleanup: bool,
}

impl View for AppConfiguration {
    type V = AppConfigView;

    closed spec fn view(&self) -> AppConfigView {
        AppConfigView {
            layers_dir: self.layers_dir@,
            destination_dir: self.destination_dir@,
            size: self.size,
            max_tries: self.max_tries,
            cleanup: self.cleanup,
        }
    }
}

/// The number `arg` writes, or `fallback` when it does not parse as a `u32`.
pub open spec fn number_or(arg: Seq<char>, fallback: u32) -> u32 {
    if parses_as_u32(arg) {
        decimal_value(unsigned_digits(arg)) as u32
    } else {
        fallback
    }
}

impl AppConfiguration {
    pub fn new(
        layers_dir: String,
        destination_dir: String,
        size: u32,
        max_tries: u32,
        cleanup: bool,
    ) -> (r: AppConfiguration)
        ensures
            r@ == (AppConfigView {
                layers_dir: layers_dir@,
                destination_dir: destination_dir@,
                size,
                max_tries,
                cleanup,
            }),
    {
        AppConfiguration { layers_dir, destination_dir, size, max_tries, cleanup }
    }

    /// Settings from the argument texts; a size or a retry ceiling that does
    /// not parse falls back to its default.
    pub fn from_args(
        layers_dir: String,
        destination_dir: String,
        size_arg: &str,
        max_retry_arg: &str,
        cleanup: bool,
    ) -> (r: AppConfiguration)
        ensures
            r@ == (AppConfigView {
                layers_dir: layers_dir@,
                destination_dir: destination_dir@,
                size: number_or(size_arg@, FALLBACK_SIZE),
                max_tries: number_or(max_retry_arg@, FALLBACK_MAX_TRIES),
                cleanup,
            }),
    {
        let size = match parse_u32(size_arg) {
            Some(v) => v,
            None => FALLBACK_SIZE,
        };
        let max_tries = match parse_u32(max_retry_arg) {
            Some(v) => v,
            None => FALLBACK_MAX_TRIES,
        };
        AppConfiguration { layers_dir, destination_dir, size, max_tries, cleanup }
    }

    pub fn get_layers_dir(&self) -> (r: &str)
        ensures
            r@ == self@.layers_dir,
    {
        self.layers_dir.as_str()
    }

    pub fn get_destination_dir(&self) -> (r: &str)
        ensures
            r@ == self@.destination_dir,
    {
        self.destination_dir.as_str()
    }

    pub fn get_size(&self) -> (r: u32)
        ensures
            r == self@.size,
    {
        self.size
    }

    pub fn get_max_tries(&self) -> (r: u32)
        ensures
            r == self@.max_tries,
    {
        self.max_tries
    }

    pub fn is_cleanup_enabled(&self) -> (r: bool)
        ensures
            r == self@.cleanup,
    {
        self.cleanup
    }
}

} // verus!
