pub mod color;
pub mod component;
pub mod dielectric_mat;
pub mod diffuse_mat;
pub mod hit_record;
pub mod material;
pub mod metal_mat;
pub mod ray;
pub mod vec3;
