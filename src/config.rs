//! Configuration sections the analysis reads, and how an overriding layer
//! is laid over a base one.

use vstd::prelude::*;

verus! {

/// Output selection.
#[derive(Debug, Clone)]
pub struct OutputConfig {
    pub format: Option<String>,
    pub file: Option<String>,
}

/// A `(warning, error)` threshold pair, each optional.
#[derive(Debug, Clone, Copy, PartialEq, Eq, Structural)]
pub struct ThresholdPair {
    pub warning: Option<u32>,
    pub error: Option<u32>,
}

/// File filters.
#[derive(Debug, Clone)]
pub struct FilesConfig {
    pub allow_globs: Option<Vec<String>>,
    pub deny_globs: Option<Vec<String>>,
}

/// The override's value where it sets one, else the base's.
pub open spec fn layer<T>(base: Option<T>, over: Option<T>) -> Option<T> {
    match over {
        Some(x) => Some(x),
        None => base,
    }
}

/// `over` laid over `base`, field by field.
pub open spec fn merge_output(base: OutputConfig, over: OutputConfig) -> OutputConfig {
    OutputConfig { format: layer(base.format, over.format), file: layer(base.file, over.file) }
}

/// `over` laid over `base`, field by field.
pub open spec fn merge_pair(base: ThresholdPair, over: ThresholdPair) -> ThresholdPair {
    ThresholdPair { warning: layer(base.warning, over.warning), error: layer(base.error, over.error) }
}

/// `over` laid over `base`, field by field.
pub open spec fn merge_files(base: FilesConfig, over: FilesConfig) -> FilesConfig {
    FilesConfig {
        allow_globs: layer(base.allow_globs, over.allow_globs),
        deny_globs: layer(base.deny_globs, over.deny_globs),
    }
}

impl OutputConfig {
    /// Each field of `over` that is set replaces the one of `self`.
    pub fn merged(self, over: OutputConfig) -> (r: OutputConfig)
        ensures
            r == merge_output(self, over),
    {
        OutputConfig {
            format: match over.format {
                Some(x) => Some(x),
                None => self.format,
            },
            file: match over.file {
                Some(x) => Some(x),
                None => self.file,
            },
        }
    }
}

impl ThresholdPair {
    /// Each threshold of `over` that is set replaces the one of `self`.
    pub fn merged(&self, over: &ThresholdPair) -> (r: ThresholdPair)
        ensures
            r == merge_pair(*self, *over),
    {
        ThresholdPair {
            warning: match over.warning {
                Some(w) => Some(w),
                None => self.warning,
            },
            error: match over.error {
                Some(e) => Some(e),
                None => self.error,
            },
        }
    }

    /// The pair with defaults filled in for unset thresholds.
    pub fn resolved(&self, default_warning: u32, default_error: u32) -> (r: (u32, u32))
        ensures
            r.0 == match self.warning { Some(w) => w, None => default_warning },
            r.1 == match self.error { Some(e) => e, None => default_error },
    {
        (
            match self.warning {
                Some(w) => w,
                None => default_warning,
            },
            match self.error {
                Some(e) => e,
                None => default_error,
            },
        )
    }
}

impl FilesConfig {
    /// Each filter list of `over` that is set replaces the one of `self`.
    pub fn merged(self, over: FilesConfig) -> (r: FilesConfig)
        ensures
            r == merge_files(self, over),
    {
        FilesConfig {
            allow_globs: match over.allow_globs {
                Some(x) => Some(x),
                None => self.allow_globs,
            },
            deny_globs: match over.deny_globs {
                Some(x) => Some(x),
                None => self.deny_globs,
            },
        }
    }
}

/// Laying a configuration section over itself changes nothing.
pub proof fn lemma_merge_self_is_identity(o: OutputConfig, t: ThresholdPair, f: FilesConfig)
    ensures
        merge_output(o, o) == o,
        merge_pair(t, t) == t,
        merge_files(f, f) == f,
{
}

} // verus!
