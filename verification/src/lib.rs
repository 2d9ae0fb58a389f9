//! Verified core of a small UEFI-booted hobby kernel: the boot-information
//! records handed from loader to kernel, PSF1 font headers, the kernel's
//! framebuffer text renderer, the loader's ELF load plan and the bootstrap
//! pixel buffer.

#![allow(non_snake_case)]

pub mod blt;
pub mod boot_info;
pub mod elf_load;
pub mod psf;
pub mod renderer;
