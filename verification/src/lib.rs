//! The logic of a small task service: the client's task, user and settings
//! models, its message banner, its task list, its requests and their errors;
//! the server's task rows and updates; the reverse proxy's routing and
//! configuration; and the orders that the client stores.

pub mod text;
pub mod time;
pub mod messages;
pub mod task;
pub mod user;
pub mod settings;
pub mod api_error;
pub mod api;
pub mod task_list;
pub mod home;
pub mod proxy;
pub mod server_tasks;
pub mod indexed;
pub mod proxy_env;
pub mod orders;
