//! Configuration and user records shared across the components.
use vstd::prelude::*;

verus! {

/// User-specified overrides for the capture pipeline. An unset field means
/// the resolver decides.
#[derive(Debug)]
pub struct PipelineConfig {
    pub source: Option<String>,
    pub use_cam_builtin_encoder: Option<bool>,
    pub width: Option<u32>,
    pub height: Option<u32>,
}

impl PipelineConfig {
    /// A configuration with no overrides set.
    pub fn empty() -> (r: PipelineConfig)
        ensures
            r.source is None,
            r.use_cam_builtin_encoder is None,
            r.width is None,
            r.height is None,
    {
        PipelineConfig { source: None, use_cam_builtin_encoder: None, width: None, height: None }
    }
}

impl Clone for PipelineConfig {
    fn clone(&self) -> (r: Self)
        ensures
            r == *self,
    {
        PipelineConfig {
            source: match &self.source {
                Some(s) => Some(s.clone()),
                None => None,
            },
            use_cam_builtin_encoder: self.use_cam_builtin_encoder,
            width: self.width,
            height: self.height,
        }
    }
}

/// Recording-file rotation policy.
///
/// `max_system_usage` is the allowed fraction of the filesystem, in
/// thousandths: 900 stands for nine tenths of the disk.
#[derive(Clone, Copy, Debug, PartialEq, Eq, Structural)]
pub struct FileSinkConfig {
    /// Open a new file when a key frame arrives more than this many seconds
    /// after the current file was opened.
    pub max_file_duration: Option<u64>,
    /// Delete oldest files while more than this many recordings exist.
    pub max_number_of_file: Option<u64>,
    /// Delete oldest files while the filesystem is fuller than this many
    /// thousandths.
    pub max_system_usage: u32,
}

impl FileSinkConfig {
    /// The fraction bound is a number of thousandths.
    pub open spec fn wf(self) -> bool {
        self.max_system_usage <= 1000
    }
}

impl Default for FileSinkConfig {
    /// Rotate every ten minutes, keep any number of files, allow nine tenths
    /// of the disk.
    fn default() -> (r: Self)
        ensures
            r.max_file_duration == Some(600u64),
            r.max_number_of_file is None,
            r.max_system_usage == 900u32,
            r.wf(),
    {
        FileSinkConfig {
            max_file_duration: Some(600),
            max_number_of_file: None,
            max_system_usage: 900,
        }
    }
}

/// One account of the service.
#[derive(Debug)]
pub struct User {
    pub username: String,
    /// Lowercase hex digest of the account's password.
    pub password: String,
}

impl Clone for User {
    fn clone(&self) -> (r: Self)
        ensures
            r == *self,
    {
        User { username: self.username.clone(), password: self.password.clone() }
    }
}

} // verus!
