pub mod channel;
pub mod ppm;
pub mod ray;
pub mod render;
pub mod shade;
pub mod sphere;
pub mod vec3;
