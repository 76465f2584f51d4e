pub mod bridge;
pub mod cert;
pub mod config;
pub mod handshake;
pub mod metadata;
pub mod policy;
pub mod session;

pub use cert::CertificateInput;
pub use config::TlsConfig;
pub use handshake::available;
pub use handshake::Backend;
pub use handshake::TlsError;
pub use metadata::Metadata;
pub use metadata::Package;
pub use policy::VerifyError;
pub use policy::VerifyPolicy;
