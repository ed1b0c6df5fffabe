//! The verified heart of a loca building: its rooms, doors, work and care.

use vstd::prelude::*;

pub mod api;
pub mod attachments;
pub mod attention;
pub mod authority;
pub mod calls;
pub mod care;
pub mod chores;
pub mod config;
pub mod console;
pub mod content;
pub mod desk;
pub mod door;
pub mod feed;
pub mod gate;
pub mod halls;
pub mod hub;
pub mod keys;
pub mod laws;
pub mod laws_answers;
pub mod laws_calling;
pub mod laws_coming;
pub mod laws_conditions;
pub mod laws_course;
pub mod laws_deeds;
pub mod laws_door;
pub mod laws_feed;
pub mod laws_hearing;
pub mod laws_house;
pub mod laws_lists;
pub mod laws_reopening;
pub mod laws_requests;
pub mod laws_rounds;
pub mod laws_speaking;
pub mod laws_surroundings;
pub mod laws_work;
pub mod listing;
pub mod lobby;
pub mod people;
pub mod post;
pub mod premises;
pub mod protocol;
pub mod reactions;
pub mod record;
pub mod references;
pub mod residents;
pub mod restore;
pub mod room;
pub mod rounds;
pub mod runtime;
pub mod saved;
pub mod sessions;
pub mod settings;
pub mod stream;
pub mod table;
pub mod talk;
pub mod text;
pub mod token;
pub mod ward;
pub mod work;

verus! {

} // verus!
