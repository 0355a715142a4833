pub mod damage;
pub mod hunger;
