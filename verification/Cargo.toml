[package]
name = "logo_banner"
version = "0.1.0"
edition = "2021"
publish = false

[dependencies]
image = "*"
image-base64 = "*"
css-color-parser = "*"
base64 = "*"
rand = "0.8"
aws-config = "*"
aws-sdk-s3 = "*"
dotenv = "*"
