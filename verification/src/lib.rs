//! Tasks and lists: what a task client shows, asks for and says.

pub mod addcard;
pub mod adding_law;
pub mod answer;
pub mod answer_law;
pub mod arrange;
pub mod autostart;
pub mod bar;
pub mod bar_law;
pub mod batch;
pub mod care_law;
pub mod calendar_law;
pub mod change;
pub mod cli;
pub mod cli_law;
pub mod content;
pub mod counts;
pub mod counts_law;
pub mod date;
pub mod dating_law;
pub mod dialogs;
pub mod draw_law;
pub mod drive;
pub mod drive_law;
pub mod due;
pub mod edit_law;
pub mod editor;
pub mod find;
pub mod find_law;
pub mod found_law;
pub mod handle;
pub mod key_law;
pub mod keyed;
pub mod keys;
pub mod linked;
pub mod markdown;
pub mod menu_law;
pub mod menus;
pub mod message_law;
pub mod months_law;
pub mod motion;
pub mod name_law;
pub mod nav;
pub mod notes;
pub mod number;
pub mod open_law;
pub mod order;
pub mod out;
pub mod plan;
pub mod plan_law;
pub mod prefs;
pub mod prefs_law;
pub mod quickadd;
pub mod remind;
pub mod render;
pub mod reorder;
pub mod reorder_law;
pub mod repeat;
pub mod repeat_law;
pub mod row;
pub mod rule_law;
pub mod said;
pub mod say_law;
pub mod schedule;
pub mod settings;
pub mod shown_law;
pub mod sidebar;
pub mod sidebar_law;
pub mod sight;
pub mod sight_law;
pub mod sort_law;
pub mod sorting;
pub mod start;
pub mod steps;
pub mod task;
pub mod text;
pub mod text_law;
pub mod tray;
pub mod typing_law;
pub mod update;
pub mod utf8;
pub mod view_law;
pub mod window;
pub mod window_law;
pub mod words;
pub mod zone;
