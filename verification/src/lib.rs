//! Verified logic of a download manager: its tables, windows, queues, background services and
//! the rules that connect them. Everything here works on plain values.

pub mod background_effects;
pub mod capture;
pub mod capture_link;
pub mod category_dir;
pub mod clipboard_watch;
pub mod clock;
pub mod columns;
pub mod context_menu;
pub mod controls;
pub mod launch;
pub mod lifecycle;
pub mod menus;
pub mod notification;
pub mod order;
pub mod power;
pub mod preferences;
pub mod progress_page;
pub mod progress_window;
pub mod queue_manager;
pub mod row_laws;
pub mod rpc;
pub mod session;
pub mod shell;
pub mod snapshot;
pub mod status_bar;
pub mod subscription;
pub mod supervisor;
pub mod table_cells;
pub mod table_headers;
pub mod table_laws;
pub mod table_selection;
pub mod table_settings;
pub mod task_menu;
pub mod task_table;
pub mod tasks;
pub mod text;
pub mod text_laws;
pub mod tray;
pub mod windows;
