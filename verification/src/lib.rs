//! A first-person practical-shooting (USPSA) range, as a verified game core.
//!
//! The library holds everything the game decides: the stage layout, the
//! start-buzzer / timer phase machine, the outlaws that strafe and fire back,
//! the effect of each shot, and hit-factor scoring (USPSA Minor: A = 5, C = 3,
//! D = 1; each paper needs two scoring hits, best two count; a miss, a standing
//! steel or a no-shoot hit is -10). Time is kept in microseconds and distances
//! in micrometres, so every rule is integer arithmetic that Verus checks.
pub mod sfx;
pub mod target;
pub mod scoring;
pub mod enemy;
pub mod layout;
pub mod aim;
pub mod game;
pub mod controls;
pub mod wav;
pub mod noise;
pub mod stage;
mod random;
