[package]
name = "hall_effect_keyboard"
version = "0.1.0"
edition = "2021"
publish = false

[dependencies]
heapless = "0.8"
libdaisy = "*"
stm32h7xx-hal = "*"
cortex-m = "0.7"
cortex-m-rtic = "1"
fugit = "0.3"
ssd1306 = "*"
embedded-graphics = "*"
log = "0.4"
panic-rtt-target = "*"
