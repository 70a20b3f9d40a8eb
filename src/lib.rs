pub mod capture;
pub mod commands;
pub mod country;
pub mod flight;
pub mod lives;
pub mod logistics;
pub mod mission;
pub mod objectives;
pub mod players;
pub mod scheduler;
pub mod side;
