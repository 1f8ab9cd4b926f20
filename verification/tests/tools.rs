use agent_kernel::manifest::{manifest_dir, PolicyConfig};
use agent_kernel::json::Json;
use agent_kernel::tool::{
    ChunkLog, ChunkSink, ToolChunk, ToolChunkStream, ToolExecutionCtx, ToolOutput,
};

struct Captured {
    chunks: Vec<ToolChunk>,
}

impl ChunkSink for Captured {
    fn log(&self) -> ChunkLog {
        unreachable!()
    }

    fn accept(&mut self, chunk: ToolChunk) {
        self.chunks.push(chunk);
    }
}

#[test]
fn tool_output_readonly_has_no_invalidations() {
    let output = ToolOutput::readonly(Json::text("hello"));
    assert!(output.invalidations.is_empty());
}

#[test]
fn tool_output_denied_contains_reason() {
    let output = ToolOutput::denied("not allowed");
    let reason = output.result.get("reason").unwrap().as_str().unwrap();
    assert_eq!(reason, "not allowed");
}

#[test]
fn null_ctx_drops_chunks_silently() {
    let mut ctx = ToolExecutionCtx::null();
    ctx.emit_chunk(ToolChunk { stream: ToolChunkStream::Stdout, data: "hi".to_string() });
    assert!(ctx.chunk_sink.is_none());
}

#[test]
fn with_sink_ctx_forwards_chunks() {
    let mut captured = Captured { chunks: Vec::new() };
    let mut ctx = ToolExecutionCtx::with_sink(&mut captured);
    ctx.emit_chunk(ToolChunk { stream: ToolChunkStream::Stdout, data: "one".to_string() });
    ctx.emit_chunk(ToolChunk { stream: ToolChunkStream::Stderr, data: "two".to_string() });
    let got = captured.chunks;
    assert_eq!(got.len(), 2);
    assert!(matches!(got[0].stream, ToolChunkStream::Stdout));
    assert_eq!(got[0].data, "one");
    assert_eq!(got[1].data, "two");
    assert!(matches!(got[1].stream, ToolChunkStream::Stderr));
}

#[test]
fn policy_config_resolves_relative_to_manifest_dir() {
    let cfg = PolicyConfig { file: "../policies/permissive.yaml".to_string() };
    let resolved = cfg.resolve("/home/user/project/distros");
    assert_eq!(resolved, "/home/user/project/distros/../policies/permissive.yaml");
}

#[test]
fn policy_config_absolute_path_unchanged() {
    let cfg = PolicyConfig { file: "/abs/path/policy.yaml".to_string() };
    let resolved = cfg.resolve("/irrelevant");
    assert_eq!(resolved, "/abs/path/policy.yaml");
}

#[test]
fn manifest_dir_handles_bare_filename() {
    assert_eq!(manifest_dir("code-agent.toml"), ".");
}
