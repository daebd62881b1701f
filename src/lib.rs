//! Sector-addressed programming of a NAND flash chip through a vendor
//! programming interface: session ordering, bounds- and alignment-checked
//! chunked transfers, and digest retrieval.
use vstd::prelude::*;

pub mod error;
pub mod geometry;
pub mod device;
pub mod session;
pub mod transfer;
pub mod command;
pub mod sim;
pub mod hex;

pub use error::{DSmcError, check_status};
pub use geometry::{
    Geometry, SectorRange, BLOCK_SIZE, NAND_SECTORS, NAND_SIZE, NUM_SECTORS_PER_OP, SMC_NAND_BLOCK_SZ,
};
pub use device::{DSMCFunctions, DIGEST_LEN};
pub use session::{Progress, ProgressLog, Session, SessionState, SUPPORTED_VERSION};
pub use command::{Command, Outcome};
pub use sim::{SimNand, SIM_FAIL, SIM_INVALID_ARG};
pub use hex::to_hexstr;
