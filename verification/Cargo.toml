[package]
name = "axplat-riscv64-sg2002"
version = "0.1.0"
edition = "2021"
publish = false

[dependencies]
axplat = { version = "*", features = ["irq"] }
kspin = "*"
lazyinit = "*"
riscv = "*"
riscv_plic = "*"
sbi-rt = "*"
uart_16550 = "*"
