pub mod bytes;
pub mod frame_allocator;
pub mod fat;
pub mod console;
pub mod vga_textmode;
pub mod framebuffer;
pub mod framebuffer_console;
pub mod text;
pub mod error;
pub mod partition;
pub mod exec;
pub mod task;
pub mod tree;
pub mod pci_id;
pub mod devices;
pub mod port;
pub mod pic;
pub mod qemu_exit;
pub mod handle;
pub mod interrupts;
pub mod acpi;
pub mod pci;
pub mod nvme;
pub mod ahci;
pub mod fat_dir;
pub mod fat_file;
pub mod ipc;
pub mod apic;
pub mod page_walk;
pub mod keyboard;
pub mod file;
