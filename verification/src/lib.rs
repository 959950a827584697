//! The verified core of a terminal WhatsApp client: key routing and the
//! focus, menu and dispatch rules; contextual action availability; the
//! chat list (ordering, communities, rows, selection); read cursors; the
//! composer's text, mentions and submissions; the attachment viewer; and
//! the avatar scheduler with its caches.
pub mod actions;
pub mod avatar_cache;
pub mod avatar_window;
pub mod avatar_worker;
pub mod avatars;
pub mod chat_list;
pub mod chat_ordering;
pub mod community;
pub mod composer;
pub mod contacts;
pub mod contextual_actions;
pub mod contextual_activation;
pub mod dispatch;
pub mod download;
pub mod events;
pub mod hydration;
pub mod input_mapping;
pub mod input_router;
pub mod keys;
pub mod leader_menu;
pub mod lifecycle;
pub mod logout;
pub mod media_cache;
pub mod mentions;
pub mod navigation;
pub mod projection;
pub mod read_state;
pub mod store;
pub mod terminal;
pub mod text_order;
pub mod viewer;
