//! Messages of the RobotS boards and the logic around them: the command
//! wire format (postcard bytes in COBS frames), the serial codec, the driver
//! and firmware decisions, and the web page's command log.

pub mod error;
pub mod wire;
pub mod cmd;
pub mod cobs_format;
pub mod frame;
pub mod codec;
pub mod relay;
pub mod aht20;
pub mod driver;
pub mod firmware;
pub mod sse;
pub mod led;
pub mod cmd_log;

pub use crate::aht20::{SensorErr, SensorOk, SensorResult};
pub use crate::cmd::{Cmd, Humidity, Temperature, CMD_MAX_SIZE};
pub use crate::codec::Codec;
pub use crate::error::{Error, PostcardError};
pub use crate::frame::CmdVec;
pub use crate::relay::Relay;
