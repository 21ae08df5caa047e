//! A structured-concurrency composition kernel: senders describe work,
//! receivers take its one result, and composites gather the results of their
//! sub-operations and deliver once.

pub mod basic;
pub mod future;
pub mod join_tuple;
pub mod place;
pub mod sender;
pub mod slot;
pub mod traits;
pub mod tuple_list;

pub use crate::basic::{BasicOperation, Branch, Sum};
pub use crate::future::{FutureState, WakeAction};
pub use crate::join_tuple::{ReceiverList, ZipOption};
pub use crate::place::{place_for, Place};
pub use crate::sender::bind::{and_then, bind, Bind};
pub use crate::sender::eager::{eager, Eager};
pub use crate::sender::map::MapSender;
pub use crate::sender::sched::{schedule, Scheduler};
pub use crate::sender::sched_on::{sched_on, SchedOn};
pub use crate::sender::transfer::{transfer, Local, Transfer};
pub use crate::sender::value::{value, Value};
pub use crate::slot::CountDownSlot;
pub use crate::traits::{Execution, Receiver, ReceiverFrom, Sender, SenderTo};
pub use crate::tuple_list::{ExecutionList, SenderListTo};
