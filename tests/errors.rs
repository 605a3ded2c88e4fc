use qterm::error::{
    CommandErrorKind, ConfigErrorKind, GpuErrorKind, MetricsErrorKind, QuantumStateErrorKind,
    RenderErrorKind, ResourceErrorKind, ShellErrorKind,
};
use qterm::{format_error, QTermError};

fn s(x: &str) -> String {
    x.to_string()
}

#[test]
fn format_error_names_kind_and_message() {
    let e = QTermError::gpu_error(GpuErrorKind::DeviceLost, s("gone"), None);
    assert_eq!(format_error(&e), "GPU Error (DeviceLost): gone");
    let e = QTermError::resource_error(ResourceErrorKind::NotFound, s("missing"), Some(s("/tmp/x")));
    assert_eq!(format_error(&e), "Resource Error (NotFound): missing [/tmp/x]");
    let e = QTermError::resource_error(ResourceErrorKind::Corrupted, s("bad"), None);
    assert_eq!(format_error(&e), "Resource Error (Corrupted): bad []");
    let e = QTermError::quantum_error(QuantumStateErrorKind::DecoherenceError, s("lost"));
    assert_eq!(format_error(&e), "Quantum State Error (DecoherenceError): lost");
    let e = QTermError::render_error(RenderErrorKind::PipelineError, s("p"));
    assert_eq!(format_error(&e), "Render Error (PipelineError): p");
    let e = QTermError::ShellError { kind: ShellErrorKind::PermissionDenied, message: s("no") };
    assert_eq!(format_error(&e), "Shell Error (PermissionDenied): no");
    let e = QTermError::MetricsError { kind: MetricsErrorKind::InvalidMetric, message: s("m") };
    assert_eq!(format_error(&e), "Metrics Error (InvalidMetric): m");
    let e = QTermError::CommandError { kind: CommandErrorKind::Timeout, message: s("t") };
    assert_eq!(format_error(&e), "Command Error (Timeout): t");
    let e = QTermError::ConfigError { kind: ConfigErrorKind::MissingField, message: s("f") };
    assert_eq!(format_error(&e), "Config Error (MissingField): f");
    assert_eq!(format_error(&QTermError::IoError(s("disk"))), "IO Error: disk");
    assert_eq!(format_error(&QTermError::Unknown(s("?"))), "Unknown Error: ?");
}

#[test]
fn describe_matches_display_text() {
    let e = QTermError::gpu_error(GpuErrorKind::ShaderCompilationFailed, s("syntax"), None);
    assert_eq!(e.describe(), "GPU error: ShaderCompilationFailed - syntax");
    let e = QTermError::ConfigError { kind: ConfigErrorKind::ParseError, message: s("line 3") };
    assert_eq!(e.describe(), "Configuration error: ParseError - line 3");
    assert_eq!(QTermError::Unknown(s("x")).describe(), "Unknown error: x");
}

#[test]
fn error_chain_lists_every_cause() {
    let inner = QTermError::quantum_error(QuantumStateErrorKind::InvalidState, s("inner"));
    let mid = QTermError::gpu_error(GpuErrorKind::DeviceLost, s("mid"), Some(Box::new(inner)));
    let outer = QTermError::gpu_error(GpuErrorKind::InvalidOperation, s("outer"), Some(Box::new(mid)));
    assert_eq!(
        outer.error_chain(),
        vec![
            s("GPU error: InvalidOperation - outer"),
            s("GPU error: DeviceLost - mid"),
            s("Quantum state error: InvalidState - inner"),
        ]
    );
    assert_eq!(QTermError::IoError(s("e")).error_chain(), vec![s("IO error: e")]);
}

#[test]
fn recoverability_and_gpu_classification() {
    let lost = QTermError::gpu_error(GpuErrorKind::DeviceLost, s(""), None);
    assert!(!lost.is_recoverable());
    assert!(lost.is_gpu_error());
    let other = QTermError::gpu_error(GpuErrorKind::InvalidOperation, s(""), None);
    assert!(other.is_recoverable());
    let corrupt = QTermError::resource_error(ResourceErrorKind::Corrupted, s(""), None);
    assert!(!corrupt.is_recoverable());
    assert!(!corrupt.is_gpu_error());
    let missing = QTermError::resource_error(ResourceErrorKind::NotFound, s(""), None);
    assert!(missing.is_recoverable());
}
