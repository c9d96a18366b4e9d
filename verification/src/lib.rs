//! Game logic of a DOS racing game: configuration, resource archives,
//! bitmaps, random track generation, menus and input handling.

pub mod config;
pub mod stack;
pub mod unpack;
pub mod archive;
pub mod crc;
pub mod data;
pub mod video;
pub mod state;
pub mod sprite;
pub mod frame;
pub mod menu;
pub mod input;
pub mod protection;
pub mod track;
pub mod obstacles;
pub mod scenery;
pub mod structures;
pub mod relief;
pub mod stations;
pub mod edges;
pub mod mem;
pub mod bitmap;
pub mod palette;
pub mod cursor;
pub mod recs_bar;
pub mod joystick;
pub mod screens;
pub mod ticks;
pub mod intro;
pub mod race;
