//! The errors that mesh operations report.

use vstd::prelude::*;
use vstd::string::StringExecFns;

verus! {

/// An error of the mesh, by kind, with a message for the operator.
#[derive(Debug, Clone)]
pub enum MeshError {
    /// Failure of the surrounding module machinery.
    ModuleError(String),
    /// Failure inside the routing table or discovery.
    RoutingError(String),
    /// Failure of the payment subsystem itself.
    PaymentError(String),
    /// A proof is missing, expired, malformed or does not match.
    PaymentVerification(String),
    /// Failure of the classifier.
    ClassificationError(String),
    /// Failure of configuration.
    ConfigError(String),
    /// A packet fails structural validation.
    InvalidPacket(String),
    /// A proof hash was seen before, or a sequence number did not increase.
    ReplayDetected(String),
    /// No route to the destination is known.
    RouteNotFound(String),
    /// The mesh is switched off.
    MeshDisabled(String),
}

/// The kinds of error.
#[derive(Debug, Clone, Copy, PartialEq, Eq, Structural)]
pub enum ErrorKind {
    Module,
    Routing,
    Payment,
    PaymentVerification,
    Classification,
    Config,
    InvalidPacket,
    ReplayDetected,
    RouteNotFound,
    MeshDisabled,
}

/// What an error holds, as mathematical values: its kind and its detail.
pub struct ErrorView {
    pub kind: ErrorKind,
    pub detail: Seq<char>,
}

impl View for MeshError {
    type V = ErrorView;

    open spec fn view(&self) -> ErrorView {
        ErrorView { kind: self.spec_kind(), detail: self.detail() }
    }
}

impl MeshError {
    /// The kind of the error.
    pub open spec fn spec_kind(&self) -> ErrorKind {
        match self {
            MeshError::ModuleError(_) => ErrorKind::Module,
            MeshError::RoutingError(_) => ErrorKind::Routing,
            MeshError::PaymentError(_) => ErrorKind::Payment,
            MeshError::PaymentVerification(_) => ErrorKind::PaymentVerification,
            MeshError::ClassificationError(_) => ErrorKind::Classification,
            MeshError::ConfigError(_) => ErrorKind::Config,
            MeshError::InvalidPacket(_) => ErrorKind::InvalidPacket,
            MeshError::ReplayDetected(_) => ErrorKind::ReplayDetected,
            MeshError::RouteNotFound(_) => ErrorKind::RouteNotFound,
            MeshError::MeshDisabled(_) => ErrorKind::MeshDisabled,
        }
    }

    /// The kind of the error.
    #[verifier::when_used_as_spec(spec_kind)]
    pub fn kind(&self) -> (r: ErrorKind)
        ensures
            r == self.spec_kind(),
    {
        match self {
            MeshError::ModuleError(_) => ErrorKind::Module,
            MeshError::RoutingError(_) => ErrorKind::Routing,
            MeshError::PaymentError(_) => ErrorKind::Payment,
            MeshError::PaymentVerification(_) => ErrorKind::PaymentVerification,
            MeshError::ClassificationError(_) => ErrorKind::Classification,
            MeshError::ConfigError(_) => ErrorKind::Config,
            MeshError::InvalidPacket(_) => ErrorKind::InvalidPacket,
            MeshError::ReplayDetected(_) => ErrorKind::ReplayDetected,
            MeshError::RouteNotFound(_) => ErrorKind::RouteNotFound,
            MeshError::MeshDisabled(_) => ErrorKind::MeshDisabled,
        }
    }

    /// The detail that the error carries.
    pub open spec fn detail(self) -> Seq<char> {
        match self {
            MeshError::ModuleError(m) => m@,
            MeshError::RoutingError(m) => m@,
            MeshError::PaymentError(m) => m@,
            MeshError::PaymentVerification(m) => m@,
            MeshError::ClassificationError(m) => m@,
            MeshError::ConfigError(m) => m@,
            MeshError::InvalidPacket(m) => m@,
            MeshError::ReplayDetected(m) => m@,
            MeshError::RouteNotFound(m) => m@,
            MeshError::MeshDisabled(m) => m@,
        }
    }

    /// The heading under which an error of this kind is shown.
    pub open spec fn heading(self) -> Seq<char> {
        match self {
            MeshError::ModuleError(_) => "Module error: "@,
            MeshError::RoutingError(_) => "Routing error: "@,
            MeshError::PaymentError(_) => "Payment verification error: "@,
            MeshError::PaymentVerification(_) => "Payment verification failed: "@,
            MeshError::ClassificationError(_) => "Classification error: "@,
            MeshError::ConfigError(_) => "Configuration error: "@,
            MeshError::InvalidPacket(_) => "Invalid packet: "@,
            MeshError::ReplayDetected(_) => "Replay detected: "@,
            MeshError::RouteNotFound(_) => "Route not found: "@,
            MeshError::MeshDisabled(_) => "Mesh disabled: "@,
        }
    }

    /// An invalid-packet error with this detail.
    pub open spec fn is_invalid_packet(self, detail: Seq<char>) -> bool {
        self matches MeshError::InvalidPacket(m) && m@ == detail
    }

    /// A payment-verification error with this detail.
    pub open spec fn is_payment_verification(self, detail: Seq<char>) -> bool {
        self matches MeshError::PaymentVerification(m) && m@ == detail
    }

    /// A replay error with this detail.
    pub open spec fn is_replay_detected(self, detail: Seq<char>) -> bool {
        self matches MeshError::ReplayDetected(m) && m@ == detail
    }

    /// A route-not-found error with this detail.
    pub open spec fn is_route_not_found(self, detail: Seq<char>) -> bool {
        self matches MeshError::RouteNotFound(m) && m@ == detail
    }

    /// A routing error with this detail.
    pub open spec fn is_routing_error(self, detail: Seq<char>) -> bool {
        self matches MeshError::RoutingError(m) && m@ == detail
    }

    /// A mesh-disabled error with this detail.
    pub open spec fn is_mesh_disabled(self, detail: Seq<char>) -> bool {
        self matches MeshError::MeshDisabled(m) && m@ == detail
    }

    /// The error as one line of text: its heading, then its detail.
    pub fn message(&self) -> (r: String)
        ensures
            r@ == self.heading() + self.detail(),
    {
        match self {
            MeshError::ModuleError(m) => String::from_str("Module error: ").concat(m.as_str()),
            MeshError::RoutingError(m) => String::from_str("Routing error: ").concat(m.as_str()),
            MeshError::PaymentError(m) => String::from_str("Payment verification error: ").concat(
                m.as_str(),
            ),
            MeshError::PaymentVerification(m) => String::from_str(
                "Payment verification failed: ",
            ).concat(m.as_str()),
            MeshError::ClassificationError(m) => String::from_str("Classification error: ").concat(
                m.as_str(),
            ),
            MeshError::ConfigError(m) => String::from_str("Configuration error: ").concat(
                m.as_str(),
            ),
            MeshError::InvalidPacket(m) => String::from_str("Invalid packet: ").concat(m.as_str()),
            MeshError::ReplayDetected(m) => String::from_str("Replay detected: ").concat(
                m.as_str(),
            ),
            MeshError::RouteNotFound(m) => String::from_str("Route not found: ").concat(
                m.as_str(),
            ),
            MeshError::MeshDisabled(m) => String::from_str("Mesh disabled: ").concat(m.as_str()),
        }
    }
}

} // verus!
