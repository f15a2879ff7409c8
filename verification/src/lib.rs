//! A physically inspired path tracer whose arithmetic is exact fixed-point
//! integer math, so that every stage of the renderer — geometry, bounding
//! volume hierarchy, materials, textures, camera and the recursive radiance
//! estimator — carries a machine-checked contract.

pub mod aabb;
pub mod aabox;
pub mod aarect;
pub mod bvh;
pub mod hit;
pub mod hittable_list;
pub mod integrator;
pub mod material;
pub mod medium;
pub mod moving_sphere;
pub mod camera;
pub mod fx;
pub mod perlin;
pub mod ray;
pub mod rng;
pub mod sphere;
pub mod surface;
pub mod texture;
pub mod transform;
pub mod trig;
pub mod vec3;
