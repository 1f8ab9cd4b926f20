//! What the kernel tells a frontend.

use crate::text::copy_texts;
use vstd::prelude::*;
use vstd::string::*;

verus! {

/// Summary of a compaction, for display.
#[derive(Debug, Clone, Copy, PartialEq, Eq, Structural)]
pub struct CompactionSummary {
    pub turns_before: usize,
    pub turns_after: usize,
    pub tokens_freed: usize,
}

/// A permission request that the frontend must resolve.
#[derive(Debug)]
pub struct PermissionRequest {
    pub tool_name: String,
    pub capabilities: Vec<String>,
    pub input_summary: String,
}

#[verifier::ext_equal]
pub ghost struct PermissionRequestView {
    pub tool_name: Seq<char>,
    pub capabilities: Seq<Seq<char>>,
    pub input_summary: Seq<char>,
}

impl DeepView for PermissionRequest {
    type V = PermissionRequestView;

    open spec fn deep_view(&self) -> PermissionRequestView {
        PermissionRequestView {
            tool_name: self.tool_name@,
            capabilities: self.capabilities.deep_view(),
            input_summary: self.input_summary@,
        }
    }
}

impl Clone for PermissionRequest {
    fn clone(&self) -> (r: Self)
        ensures
            r.deep_view() == self.deep_view(),
    {
        PermissionRequest {
            tool_name: self.tool_name.clone(),
            capabilities: copy_texts(&self.capabilities),
            input_summary: self.input_summary.clone(),
        }
    }
}

/// An error of the kernel, told to the frontend.
#[derive(Debug)]
pub struct KernelError {
    pub message: String,
    pub recoverable: bool,
}

pub ghost struct KernelErrorView {
    pub message: Seq<char>,
    pub recoverable: bool,
}

impl DeepView for KernelError {
    type V = KernelErrorView;

    open spec fn deep_view(&self) -> KernelErrorView {
        KernelErrorView { message: self.message@, recoverable: self.recoverable }
    }
}

impl Clone for KernelError {
    fn clone(&self) -> (r: Self)
        ensures
            r.deep_view() == self.deep_view(),
    {
        KernelError { message: self.message.clone(), recoverable: self.recoverable }
    }
}

} // verus!
