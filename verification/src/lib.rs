pub mod activity;
pub mod agent_detail;
pub mod agents;
pub mod away;
pub mod background;
pub mod badges;
pub mod base64;
pub mod bash_picker;
pub mod bytes_len;
pub mod chunking;
pub mod clicks;
pub mod compaction;
pub mod dashboard;
pub mod descriptors;
pub mod dispatch;
pub mod doubles;
pub mod effort;
pub mod elicitation;
pub mod event_loop;
pub mod fitting;
pub mod fractions;
pub mod frame;
pub mod input_box;
pub mod input_events;
pub mod json;
pub mod landlock;
pub mod layout;
pub mod mending;
pub mod mouse;
pub mod numbers;
pub mod orchestrator;
pub mod order;
pub mod overview;
pub mod paths;
pub mod pinned;
pub mod plugin_health;
pub mod plugin_rows;
pub mod prompt_rewrite;
pub mod provider_events;
pub mod question;
pub mod queue;
pub mod roster;
pub mod selection;
pub mod session_history;
pub mod session_recap;
pub mod showing;
pub mod sidebar;
pub mod slicing;
pub mod speculation;
pub mod spinner;
pub mod spinner_row;
pub mod startup;
pub mod status;
pub mod stream_pacer;
pub mod styled;
pub mod tabs;
pub mod task_detail;
pub mod task_view;
pub mod tasks;
pub mod teammates;
pub mod tenths;
pub mod terminal;
pub mod text;
pub mod text_map;
pub mod tick;
pub mod time;
pub mod timeline;
pub mod transcript;
pub mod turns;
pub mod voice;
pub mod welcome;
pub mod yank;
