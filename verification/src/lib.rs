pub mod hittable;
pub mod interval;
pub mod sphere;
