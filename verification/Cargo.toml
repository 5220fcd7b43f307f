[package]
name = "vize_ex_nif"
version = "0.1.0"
edition = "2021"
publish = false

[dependencies]
rustler = "=0.39.0"
vize_atelier_core = "=0.306.0"
vize_atelier_sfc = "=0.291.0"
vize_atelier_ssr = "=0.306.0"
vize_atelier_vapor = "=0.306.0"
vize_carton = "=0.306.0"
vize_patina = "=0.135.0"
parcel_selectors = "=0.28.2"
