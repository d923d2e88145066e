//! A small 2D game core: a software framebuffer with clipped blits, player
//! and enemy entities that move inside the world and collide by their
//! bounding boxes, a world that updates and draws them in a fixed order, and
//! the Start, Play, Over mode machine that a frame loop drives.

pub mod bitmap;
pub mod entity;
pub mod game;
pub mod img;
pub mod mode;
pub mod render;
pub mod text;
pub mod world;
