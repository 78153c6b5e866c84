//! Render settings. Loading them from a file is the caller's business;
//! this module holds the plain values, the documented defaults, and the
//! rule that fills every absent field with its default.

use vstd::prelude::*;

use crate::fx::{Fx, ONE_BITS};
use crate::types::vec3::Vec3;

verus! {

#[derive(Clone, Copy, Debug)]
pub struct MsaaConfig {
    pub samples_per_pixel: u64,
}

impl MsaaConfig {
    pub fn samples_per_pixel(&self) -> (r: u64)
        ensures
            r == self.samples_per_pixel,
    {
        self.samples_per_pixel
    }
}

#[derive(Clone, Copy, Debug, PartialEq, Eq, Structural)]
pub enum AntialiasingMode {
    Off,
    MSAA,
}

#[derive(Clone, Copy, Debug, PartialEq, Eq, Structural)]
pub enum DiffuseScatterMode {
    ApproxLambert,
    TrueLambert,
    Hemispherical,
}

#[derive(Clone, Copy, Debug)]
pub struct ImageConfig {
    pub image_width: u64,
    pub image_height: u64,
    pub gamma: Option<u64>,
    pub aa_mode: Option<AntialiasingMode>,
}

impl ImageConfig {
    pub fn image_width(&self) -> (r: u64)
        ensures
            r == self.image_width,
    {
        self.image_width
    }

    pub fn image_height(&self) -> (r: u64)
        ensures
            r == self.image_height,
    {
        self.image_height
    }

    /// The gamma exponent; absent means no gamma correction.
    pub fn gamma(&self) -> (r: u64)
        ensures
            r == spec_gamma(*self),
    {
        match self.gamma {
            Some(g) => g,
            None => 1,
        }
    }

    /// The antialiasing mode; absent means none.
    pub fn aa_mode(&self) -> (r: AntialiasingMode)
        ensures
            r == spec_aa_mode(*self),
    {
        match self.aa_mode {
            Some(m) => m,
            None => AntialiasingMode::Off,
        }
    }

    /// Rays cast per pixel: fifty under multisampling, one otherwise.
    pub fn samples_per_pixel(&self) -> (r: u64)
        ensures
            r == if spec_aa_mode(*self) is MSAA {
                50u64
            } else {
                1u64
            },
    {
        if let AntialiasingMode::MSAA = self.aa_mode() {
            return 50;
        } else {
            return 1;
        }
    }
}

/// The gamma exponent, with its default of one.
pub open spec fn spec_gamma(c: ImageConfig) -> u64 {
    match c.gamma {
        Some(g) => g,
        None => 1u64,
    }
}

/// The antialiasing mode, with its default of none.
pub open spec fn spec_aa_mode(c: ImageConfig) -> AntialiasingMode {
    match c.aa_mode {
        Some(m) => m,
        None => AntialiasingMode::Off,
    }
}

#[derive(Clone, Copy, Debug)]
pub struct CameraConfig {
    pub viewport_width: u64,
    pub viewport_height: u64,
    pub origin: Option<Vec3>,
    pub focal_length: Option<Fx>,
}

impl CameraConfig {
    pub fn viewport_width(&self) -> (r: u64)
        ensures
            r == self.viewport_width,
    {
        self.viewport_width
    }

    pub fn viewport_height(&self) -> (r: u64)
        ensures
            r == self.viewport_height,
    {
        self.viewport_height
    }

    /// The camera origin. The configuration must carry one; filling
    /// defaults first guarantees it.
    pub fn origin(&self) -> (r: Vec3)
        requires
            self.origin is Some,
        ensures
            r == self.origin->0,
    {
        match self.origin {
            Some(o) => o,
            None => Vec3::zero_vec(),
        }
    }

    /// The focal length. The configuration must carry one; filling
    /// defaults first guarantees it.
    pub fn focal_length(&self) -> (r: Fx)
        requires
            self.focal_length is Some,
        ensures
            r == self.focal_length->0,
    {
        match self.focal_length {
            Some(f) => f,
            None => Fx::one(),
        }
    }
}

#[derive(Clone, Copy, Debug)]
pub struct RaysConfig {
    pub max_child_rays: Option<u64>,
    pub diffuse_scatter_mode: Option<DiffuseScatterMode>,
}

impl RaysConfig {
    /// The recursion depth bound, with its default of fifty.
    pub fn max_child_rays(&self) -> (r: u64)
        ensures
            r == spec_max_child_rays(*self),
    {
        match self.max_child_rays {
            Some(n) => n,
            None => 50,
        }
    }

    /// The diffuse sampling policy, with its default of true-Lambertian.
    pub fn diffuse_scatter_mode(&self) -> (r: DiffuseScatterMode)
        ensures
            r == spec_diffuse_scatter_mode(*self),
    {
        match self.diffuse_scatter_mode {
            Some(m) => m,
            None => DiffuseScatterMode::TrueLambert,
        }
    }
}

/// The recursion depth bound, with its default of fifty.
pub open spec fn spec_max_child_rays(c: RaysConfig) -> u64 {
    match c.max_child_rays {
        Some(n) => n,
        None => 50u64,
    }
}

/// The diffuse sampling policy, with its default of true-Lambertian.
pub open spec fn spec_diffuse_scatter_mode(c: RaysConfig) -> DiffuseScatterMode {
    match c.diffuse_scatter_mode {
        Some(m) => m,
        None => DiffuseScatterMode::TrueLambert,
    }
}

#[derive(Clone, Copy, Debug)]
pub struct Config {
    pub image: ImageConfig,
    pub camera: CameraConfig,
    pub rays: RaysConfig,
}

/// The documented default configuration.
pub open spec fn spec_default_config() -> Config {
    Config {
        image: ImageConfig {
            image_width: 256u64,
            image_height: 256u64,
            gamma: Some(1u64),
            aa_mode: Some(AntialiasingMode::Off),
        },
        camera: CameraConfig {
            viewport_width: 2u64,
            viewport_height: 2u64,
            origin: Some(Vec3 { d_x: Fx { bits: 0 }, d_y: Fx { bits: 0 }, d_z: Fx { bits: 0 } }),
            focal_length: Some(Fx { bits: ONE_BITS }),
        },
        rays: RaysConfig {
            max_child_rays: Some(50u64),
            diffuse_scatter_mode: Some(DiffuseScatterMode::TrueLambert),
        },
    }
}

/// `c` with every absent field replaced by its default.
pub open spec fn spec_with_defaults(c: Config) -> Config {
    Config {
        image: ImageConfig {
            image_width: c.image.image_width,
            image_height: c.image.image_height,
            gamma: if c.image.gamma is Some {
                c.image.gamma
            } else {
                spec_default_config().image.gamma
            },
            aa_mode: if c.image.aa_mode is Some {
                c.image.aa_mode
            } else {
                spec_default_config().image.aa_mode
            },
        },
        camera: CameraConfig {
            viewport_width: c.camera.viewport_width,
            viewport_height: c.camera.viewport_height,
            origin: if c.camera.origin is Some {
                c.camera.origin
            } else {
                spec_default_config().camera.origin
            },
            focal_length: if c.camera.focal_length is Some {
                c.camera.focal_length
            } else {
                spec_default_config().camera.focal_length
            },
        },
        rays: RaysConfig {
            max_child_rays: if c.rays.max_child_rays is Some {
                c.rays.max_child_rays
            } else {
                spec_default_config().rays.max_child_rays
            },
            diffuse_scatter_mode: if c.rays.diffuse_scatter_mode is Some {
                c.rays.diffuse_scatter_mode
            } else {
                spec_default_config().rays.diffuse_scatter_mode
            },
        },
    }
}

impl Config {
    /// The documented default configuration.
    pub fn default() -> (r: Config)
        ensures
            r == spec_default_config(),
    {
        Config {
            image: ImageConfig {
                image_width: 256,
                image_height: 256,
                gamma: Some(1),
                aa_mode: Some(AntialiasingMode::Off),
            },
            camera: CameraConfig {
                viewport_width: 2,
                viewport_height: 2,
                origin: Some(Vec3::zero_vec()),
                focal_length: Some(Fx::one()),
            },
            rays: RaysConfig {
                max_child_rays: Some(50),
                diffuse_scatter_mode: Some(DiffuseScatterMode::TrueLambert),
            },
        }
    }

    /// This configuration with every absent field replaced by its default.
    /// A caller that parsed a settings file applies this before rendering.
    pub fn with_defaults(self) -> (r: Config)
        ensures
            r == spec_with_defaults(self),
    {
        let mut c = self;
        if c.image.gamma.is_none() {
            c.image.gamma = Some(1);
        }
        if c.image.aa_mode.is_none() {
            c.image.aa_mode = Some(AntialiasingMode::Off);
        }
        if c.camera.origin.is_none() {
            c.camera.origin = Some(Vec3::zero_vec());
        }
        if c.camera.focal_length.is_none() {
            c.camera.focal_length = Some(Fx::one());
        }
        if c.rays.max_child_rays.is_none() {
            c.rays.max_child_rays = Some(50);
        }
        if c.rays.diffuse_scatter_mode.is_none() {
            c.rays.diffuse_scatter_mode = Some(DiffuseScatterMode::TrueLambert);
        }
        c
    }

    pub fn image_config(&self) -> (r: &ImageConfig)
        ensures
            r == self.image,
    {
        &self.image
    }

    pub fn camera_config(&self) -> (r: &CameraConfig)
        ensures
            r == self.camera,
    {
        &self.camera
    }

    pub fn rays_config(&self) -> (r: &RaysConfig)
        ensures
            r == self.rays,
    {
        &self.rays
    }
}

} // verus!
