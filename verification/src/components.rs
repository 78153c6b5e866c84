pub mod camera;
pub mod ray;
pub mod sphere;
pub mod traceable;
