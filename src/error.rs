//! The terminal's error taxonomy, and the text each error is shown as.
use vstd::prelude::*;

verus! {

#[derive(Clone, Copy, Debug, PartialEq, Eq, Structural)]
pub enum GpuErrorKind {
    InitializationFailed,
    ShaderCompilationFailed,
    ResourceAllocationFailed,
    InvalidOperation,
    UnsupportedFeature,
    DeviceLost,
}

impl GpuErrorKind {
    /// The variant's name.
    pub open spec fn name_spec(self) -> Seq<char> {
        match self {
            GpuErrorKind::InitializationFailed => "InitializationFailed"@,
            GpuErrorKind::ShaderCompilationFailed => "ShaderCompilationFailed"@,
            GpuErrorKind::ResourceAllocationFailed => "ResourceAllocationFailed"@,
            GpuErrorKind::InvalidOperation => "InvalidOperation"@,
            GpuErrorKind::UnsupportedFeature => "UnsupportedFeature"@,
            GpuErrorKind::DeviceLost => "DeviceLost"@,
        }
    }


    /// The variant's name.
    pub fn name(&self) -> (r: &'static str)
        ensures
            r@ == self.name_spec(),
    {
        match self {
            GpuErrorKind::InitializationFailed => "InitializationFailed",
            GpuErrorKind::ShaderCompilationFailed => "ShaderCompilationFailed",
            GpuErrorKind::ResourceAllocationFailed => "ResourceAllocationFailed",
            GpuErrorKind::InvalidOperation => "InvalidOperation",
            GpuErrorKind::UnsupportedFeature => "UnsupportedFeature",
            GpuErrorKind::DeviceLost => "DeviceLost",
        }
    }
}

#[derive(Clone, Copy, Debug, PartialEq, Eq, Structural)]
pub enum QuantumStateErrorKind {
    InvalidState,
    DecoherenceError,
    MeasurementError,
    EntanglementError,
    EvolutionError,
}

impl QuantumStateErrorKind {
    /// The variant's name.
    pub open spec fn name_spec(self) -> Seq<char> {
        match self {
            QuantumStateErrorKind::InvalidState => "InvalidState"@,
            QuantumStateErrorKind::DecoherenceError => "DecoherenceError"@,
            QuantumStateErrorKind::MeasurementError => "MeasurementError"@,
            QuantumStateErrorKind::EntanglementError => "EntanglementError"@,
            QuantumStateErrorKind::EvolutionError => "EvolutionError"@,
        }
    }


    /// The variant's name.
    pub fn name(&self) -> (r: &'static str)
        ensures
            r@ == self.name_spec(),
    {
        match self {
            QuantumStateErrorKind::InvalidState => "InvalidState",
            QuantumStateErrorKind::DecoherenceError => "DecoherenceError",
            QuantumStateErrorKind::MeasurementError => "MeasurementError",
            QuantumStateErrorKind::EntanglementError => "EntanglementError",
            QuantumStateErrorKind::EvolutionError => "EvolutionError",
        }
    }
}

#[derive(Clone, Copy, Debug, PartialEq, Eq, Structural)]
pub enum RenderErrorKind {
    InitializationFailed,
    ResourceCreationFailed,
    PipelineError,
    ValidationError,
    FrameSubmissionFailed,
}

impl RenderErrorKind {
    /// The variant's name.
    pub open spec fn name_spec(self) -> Seq<char> {
        match self {
            RenderErrorKind::InitializationFailed => "InitializationFailed"@,
            RenderErrorKind::ResourceCreationFailed => "ResourceCreationFailed"@,
            RenderErrorKind::PipelineError => "PipelineError"@,
            RenderErrorKind::ValidationError => "ValidationError"@,
            RenderErrorKind::FrameSubmissionFailed => "FrameSubmissionFailed"@,
        }
    }


    /// The variant's name.
    pub fn name(&self) -> (r: &'static str)
        ensures
            r@ == self.name_spec(),
    {
        match self {
            RenderErrorKind::InitializationFailed => "InitializationFailed",
            RenderErrorKind::ResourceCreationFailed => "ResourceCreationFailed",
            RenderErrorKind::PipelineError => "PipelineError",
            RenderErrorKind::ValidationError => "ValidationError",
            RenderErrorKind::FrameSubmissionFailed => "FrameSubmissionFailed",
        }
    }
}

#[derive(Clone, Copy, Debug, PartialEq, Eq, Structural)]
pub enum ResourceErrorKind {
    NotFound,
    AccessDenied,
    InvalidFormat,
    AllocationFailed,
    Corrupted,
}

impl ResourceErrorKind {
    /// The variant's name.
    pub open spec fn name_spec(self) -> Seq<char> {
        match self {
            ResourceErrorKind::NotFound => "NotFound"@,
            ResourceErrorKind::AccessDenied => "AccessDenied"@,
            ResourceErrorKind::InvalidFormat => "InvalidFormat"@,
            ResourceErrorKind::AllocationFailed => "AllocationFailed"@,
            ResourceErrorKind::Corrupted => "Corrupted"@,
        }
    }


    /// The variant's name.
    pub fn name(&self) -> (r: &'static str)
        ensures
            r@ == self.name_spec(),
    {
        match self {
            ResourceErrorKind::NotFound => "NotFound",
            ResourceErrorKind::AccessDenied => "AccessDenied",
            ResourceErrorKind::InvalidFormat => "InvalidFormat",
            ResourceErrorKind::AllocationFailed => "AllocationFailed",
            ResourceErrorKind::Corrupted => "Corrupted",
        }
    }
}

#[derive(Clone, Copy, Debug, PartialEq, Eq, Structural)]
pub enum ShellErrorKind {
    CommandFailed,
    InvalidInput,
    EnvironmentError,
    PermissionDenied,
}

impl ShellErrorKind {
    /// The variant's name.
    pub open spec fn name_spec(self) -> Seq<char> {
        match self {
            ShellErrorKind::CommandFailed => "CommandFailed"@,
            ShellErrorKind::InvalidInput => "InvalidInput"@,
            ShellErrorKind::EnvironmentError => "EnvironmentError"@,
            ShellErrorKind::PermissionDenied => "PermissionDenied"@,
        }
    }


    /// The variant's name.
    pub fn name(&self) -> (r: &'static str)
        ensures
            r@ == self.name_spec(),
    {
        match self {
            ShellErrorKind::CommandFailed => "CommandFailed",
            ShellErrorKind::InvalidInput => "InvalidInput",
            ShellErrorKind::EnvironmentError => "EnvironmentError",
            ShellErrorKind::PermissionDenied => "PermissionDenied",
        }
    }
}

#[derive(Clone, Copy, Debug, PartialEq, Eq, Structural)]
pub enum MetricsErrorKind {
    CollectionFailed,
    InvalidMetric,
    ProcessingError,
}

impl MetricsErrorKind {
    /// The variant's name.
    pub open spec fn name_spec(self) -> Seq<char> {
        match self {
            MetricsErrorKind::CollectionFailed => "CollectionFailed"@,
            MetricsErrorKind::InvalidMetric => "InvalidMetric"@,
            MetricsErrorKind::ProcessingError => "ProcessingError"@,
        }
    }


    /// The variant's name.
    pub fn name(&self) -> (r: &'static str)
        ensures
            r@ == self.name_spec(),
    {
        match self {
            MetricsErrorKind::CollectionFailed => "CollectionFailed",
            MetricsErrorKind::InvalidMetric => "InvalidMetric",
            MetricsErrorKind::ProcessingError => "ProcessingError",
        }
    }
}

#[derive(Clone, Copy, Debug, PartialEq, Eq, Structural)]
pub enum CommandErrorKind {
    InvalidSyntax,
    ExecutionFailed,
    Timeout,
    UnsupportedOperation,
}

impl CommandErrorKind {
    /// The variant's name.
    pub open spec fn name_spec(self) -> Seq<char> {
        match self {
            CommandErrorKind::InvalidSyntax => "InvalidSyntax"@,
            CommandErrorKind::ExecutionFailed => "ExecutionFailed"@,
            CommandErrorKind::Timeout => "Timeout"@,
            CommandErrorKind::UnsupportedOperation => "UnsupportedOperation"@,
        }
    }


    /// The variant's name.
    pub fn name(&self) -> (r: &'static str)
        ensures
            r@ == self.name_spec(),
    {
        match self {
            CommandErrorKind::InvalidSyntax => "InvalidSyntax",
            CommandErrorKind::ExecutionFailed => "ExecutionFailed",
            CommandErrorKind::Timeout => "Timeout",
            CommandErrorKind::UnsupportedOperation => "UnsupportedOperation",
        }
    }
}

#[derive(Clone, Copy, Debug, PartialEq, Eq, Structural)]
pub enum ConfigErrorKind {
    ParseError,
    ValidationError,
    MissingField,
    TypeError,
}

impl ConfigErrorKind {
    /// The variant's name.
    pub open spec fn name_spec(self) -> Seq<char> {
        match self {
            ConfigErrorKind::ParseError => "ParseError"@,
            ConfigErrorKind::ValidationError => "ValidationError"@,
            ConfigErrorKind::MissingField => "MissingField"@,
            ConfigErrorKind::TypeError => "TypeError"@,
        }
    }


    /// The variant's name.
    pub fn name(&self) -> (r: &'static str)
        ensures
            r@ == self.name_spec(),
    {
        match self {
            ConfigErrorKind::ParseError => "ParseError",
            ConfigErrorKind::ValidationError => "ValidationError",
            ConfigErrorKind::MissingField => "MissingField",
            ConfigErrorKind::TypeError => "TypeError",
        }
    }
}

/// An error of the terminal, with its kind and message.
#[derive(Debug)]
pub enum QTermError {
    GpuError { kind: GpuErrorKind, message: String, source: Option<Box<QTermError>> },
    QuantumStateError { kind: QuantumStateErrorKind, message: String },
    RenderError { kind: RenderErrorKind, message: String },
    ResourceError { kind: ResourceErrorKind, message: String, path: Option<String> },
    ShellError { kind: ShellErrorKind, message: String },
    MetricsError { kind: MetricsErrorKind, message: String },
    CommandError { kind: CommandErrorKind, message: String },
    IoError(String),
    ConfigError { kind: ConfigErrorKind, message: String },
    Unknown(String),
}

/// `prefix + kind + sep + message`, the common shape of error text.
pub open spec fn labeled(prefix: Seq<char>, kind: Seq<char>, sep: Seq<char>, message: Seq<char>) -> Seq<
    char,
> {
    prefix + kind + sep + message
}

fn labeled_exec(prefix: &str, kind: &str, sep: &str, message: &str) -> (r: String)
    ensures
        r@ == labeled(prefix@, kind@, sep@, message@),
{
    let mut r = String::from_str(prefix);
    r.append(kind);
    r.append(sep);
    r.append(message);
    r
}

/// The text an error is displayed as.
pub open spec fn describe_spec(e: QTermError) -> Seq<char> {
    match e {
        QTermError::GpuError { kind, message, .. } => labeled("GPU error: "@, kind.name_spec(), " - "@, message@),
        QTermError::QuantumStateError { kind, message } => labeled(
            "Quantum state error: "@,
            kind.name_spec(),
            " - "@,
            message@,
        ),
        QTermError::RenderError { kind, message } => labeled("Rendering error: "@, kind.name_spec(), " - "@, message@),
        QTermError::ResourceError { kind, message, .. } => labeled(
            "Resource error: "@,
            kind.name_spec(),
            " - "@,
            message@,
        ),
        QTermError::ShellError { kind, message } => labeled("Shell error: "@, kind.name_spec(), " - "@, message@),
        QTermError::MetricsError { kind, message } => labeled("Metrics error: "@, kind.name_spec(), " - "@, message@),
        QTermError::CommandError { kind, message } => labeled("Command error: "@, kind.name_spec(), " - "@, message@),
        QTermError::IoError(m) => "IO error: "@ + m@,
        QTermError::ConfigError { kind, message } => labeled(
            "Configuration error: "@,
            kind.name_spec(),
            " - "@,
            message@,
        ),
        QTermError::Unknown(m) => "Unknown error: "@ + m@,
    }
}

/// The messages of an error and of each error beneath it, outermost first.
pub open spec fn chain_spec(e: QTermError) -> Seq<Seq<char>>
    decreases e,
{
    seq![describe_spec(e)] + match e {
        QTermError::GpuError { source: Some(b), .. } => chain_spec(*b),
        _ => Seq::<Seq<char>>::empty(),
    }
}

/// The text `format_error` gives.
pub open spec fn format_spec(e: QTermError) -> Seq<char> {
    match e {
        QTermError::GpuError { kind, message, .. } => labeled("GPU Error ("@, kind.name_spec(), "): "@, message@),
        QTermError::QuantumStateError { kind, message } => labeled(
            "Quantum State Error ("@,
            kind.name_spec(),
            "): "@,
            message@,
        ),
        QTermError::RenderError { kind, message } => labeled("Render Error ("@, kind.name_spec(), "): "@, message@),
        QTermError::ResourceError { kind, message, path } => labeled(
            "Resource Error ("@,
            kind.name_spec(),
            "): "@,
            message@,
        ) + " ["@ + match path {
            Some(p) => p@,
            None => Seq::<char>::empty(),
        } + "]"@,
        QTermError::ShellError { kind, message } => labeled("Shell Error ("@, kind.name_spec(), "): "@, message@),
        QTermError::MetricsError { kind, message } => labeled("Metrics Error ("@, kind.name_spec(), "): "@, message@),
        QTermError::CommandError { kind, message } => labeled("Command Error ("@, kind.name_spec(), "): "@, message@),
        QTermError::IoError(m) => "IO Error: "@ + m@,
        QTermError::ConfigError { kind, message } => labeled("Config Error ("@, kind.name_spec(), "): "@, message@),
        QTermError::Unknown(m) => "Unknown Error: "@ + m@,
    }
}

impl QTermError {
    /// A GPU error, with the error beneath it if any.
    pub fn gpu_error(kind: GpuErrorKind, message: String, source: Option<Box<QTermError>>) -> (r: QTermError)
        ensures
            r == (QTermError::GpuError { kind, message, source }),
    {
        QTermError::GpuError { kind, message, source }
    }

    pub fn quantum_error(kind: QuantumStateErrorKind, message: String) -> (r: QTermError)
        ensures
            r == (QTermError::QuantumStateError { kind, message }),
    {
        QTermError::QuantumStateError { kind, message }
    }

    pub fn render_error(kind: RenderErrorKind, message: String) -> (r: QTermError)
        ensures
            r == (QTermError::RenderError { kind, message }),
    {
        QTermError::RenderError { kind, message }
    }

    pub fn resource_error(kind: ResourceErrorKind, message: String, path: Option<String>) -> (r: QTermError)
        ensures
            r == (QTermError::ResourceError { kind, message, path }),
    {
        QTermError::ResourceError { kind, message, path }
    }

    pub fn is_gpu_error(&self) -> (r: bool)
        ensures
            r == (*self is GpuError),
    {
        match self {
            QTermError::GpuError { .. } => true,
            _ => false,
        }
    }

    /// A lost device and corrupted resources cannot be recovered from.
    pub fn is_recoverable(&self) -> (r: bool)
        ensures
            r == !(match *self {
                QTermError::GpuError { kind: GpuErrorKind::DeviceLost, .. } => true,
                QTermError::ResourceError { kind: ResourceErrorKind::Corrupted, .. } => true,
                _ => false,
            }),
    {
        match self {
            QTermError::GpuError { kind: GpuErrorKind::DeviceLost, .. } => false,
            QTermError::ResourceError { kind: ResourceErrorKind::Corrupted, .. } => false,
            _ => true,
        }
    }

    /// The text the error is displayed as.
    pub fn describe(&self) -> (r: String)
        ensures
            r@ == describe_spec(*self),
    {
        match self {
            QTermError::GpuError { kind, message, .. } => labeled_exec("GPU error: ", kind.name(), " - ", message.as_str()),
            QTermError::QuantumStateError { kind, message } => labeled_exec(
                "Quantum state error: ",
                kind.name(),
                " - ",
                message.as_str(),
            ),
            QTermError::RenderError { kind, message } => labeled_exec("Rendering error: ", kind.name(), " - ", message.as_str()),
            QTermError::ResourceError { kind, message, .. } => labeled_exec(
                "Resource error: ",
                kind.name(),
                " - ",
                message.as_str(),
            ),
            QTermError::ShellError { kind, message } => labeled_exec("Shell error: ", kind.name(), " - ", message.as_str()),
            QTermError::MetricsError { kind, message } => labeled_exec("Metrics error: ", kind.name(), " - ", message.as_str()),
            QTermError::CommandError { kind, message } => labeled_exec("Command error: ", kind.name(), " - ", message.as_str()),
            QTermError::IoError(m) => String::from_str("IO error: ").concat(m.as_str()),
            QTermError::ConfigError { kind, message } => labeled_exec(
                "Configuration error: ",
                kind.name(),
                " - ",
                message.as_str(),
            ),
            QTermError::Unknown(m) => String::from_str("Unknown error: ").concat(m.as_str()),
        }
    }

    /// The messages of this error and of each error beneath it, outermost first.
    pub fn error_chain(&self) -> (r: Vec<String>)
        ensures
            r@.map_values(|s: String| s@) == chain_spec(*self),
        decreases self,
    {
        let mut v: Vec<String> = Vec::new();
        v.push(self.describe());
        match self {
            QTermError::GpuError { source: Some(b), .. } => {
                let mut rest = b.error_chain();
                let ghost first = v@;
                let ghost tail = rest@;
                v.append(&mut rest);
                proof {
                    assert(v@.map_values(|s: String| s@) =~= first.map_values(|s: String| s@)
                        + tail.map_values(|s: String| s@));
                }
            },
            _ => {
                proof {
                    assert(v@.map_values(|s: String| s@) =~= chain_spec(*self));
                }
            },
        }
        v
    }
}

/// The error as shown to the user.
pub fn format_error(error: &QTermError) -> (r: String)
    ensures
        r@ == format_spec(*error),
{
    match error {
        QTermError::GpuError { kind, message, .. } => labeled_exec("GPU Error (", kind.name(), "): ", message.as_str()),
        QTermError::QuantumStateError { kind, message } => labeled_exec(
            "Quantum State Error (",
            kind.name(),
            "): ",
            message.as_str(),
        ),
        QTermError::RenderError { kind, message } => labeled_exec("Render Error (", kind.name(), "): ", message.as_str()),
        QTermError::ResourceError { kind, message, path } => {
            let mut r = labeled_exec("Resource Error (", kind.name(), "): ", message.as_str());
            r.append(" [");
            match path {
                Some(p) => r.append(p.as_str()),
                None => {},
            }
            r.append("]");
            r
        },
        QTermError::ShellError { kind, message } => labeled_exec("Shell Error (", kind.name(), "): ", message.as_str()),
        QTermError::MetricsError { kind, message } => labeled_exec("Metrics Error (", kind.name(), "): ", message.as_str()),
        QTermError::CommandError { kind, message } => labeled_exec("Command Error (", kind.name(), "): ", message.as_str()),
        QTermError::IoError(m) => String::from_str("IO Error: ").concat(m.as_str()),
        QTermError::ConfigError { kind, message } => labeled_exec("Config Error (", kind.name(), "): ", message.as_str()),
        QTermError::Unknown(m) => String::from_str("Unknown Error: ").concat(m.as_str()),
    }
}

} // verus!
