//! A task list backed by TaskChampion, with the task-editing logic verified.

pub mod text;
pub mod status;
pub mod uuid;
pub mod tag;
pub mod time;
pub mod annotation;
pub mod model;
pub mod backend;
pub mod task;
pub mod operation;
pub mod sync;

pub use annotation::{create_annotation, Annotation};
pub use operation::{new_operations, to_tc_operations, Operation};
pub use status::{status_from_string, Status};
pub use tag::{create_tag, Tag};
pub use task::{without_recurring, Task, TaskData};
pub use uuid::{parse_uuid, uuid_v4, Uuid};
