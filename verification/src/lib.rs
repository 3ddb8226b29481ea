//! Builds a guest-boot descriptor from an OVMF firmware image: parses the
//! GUID-tagged metadata tables at the tail of the image, computes the
//! guest-physical placement of the firmware pages, and synthesizes the
//! initial register state for each virtual processor.

pub mod bytes;
pub mod cmd_options;
pub mod directive;
pub mod error;
pub mod igvm_builder;
pub mod ovmf_firmware;
pub mod vmsa;

pub use bytes::read_u16;
pub use bytes::read_u32;
pub use cmd_options::CmdOptions;
pub use cmd_options::Platform;
pub use error::BuildError;
pub use igvm_builder::IgvmBuilder;
pub use ovmf_firmware::parse_ovmf;
pub use ovmf_firmware::OvmfFirmware;
pub use ovmf_firmware::OvmfFwInfo;
pub use ovmf_firmware::OvmfFwMem;
pub use vmsa::construct_ap_vmsa;
pub use vmsa::construct_bsp_vmsa;
