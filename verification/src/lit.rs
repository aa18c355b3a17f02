//! Byte-string constants used across the library, each as a spec
//! sequence with a matching executable constructor.

use vstd::prelude::*;

verus! {

/// ``version`` as bytes.
pub open spec fn version_k_b() -> Seq<u8> {
    seq![0x76u8, 0x65u8, 0x72u8, 0x73u8, 0x69u8, 0x6fu8, 0x6eu8]
}

pub fn version_k_v() -> (r: Vec<u8>)
    ensures
        r@ =~= version_k_b(),
{
    let v: Vec<u8> = vec![0x76u8, 0x65u8, 0x72u8, 0x73u8, 0x69u8, 0x6fu8, 0x6eu8];
    v
}

/// ``ua`` as bytes.
pub open spec fn ua_k_b() -> Seq<u8> {
    seq![0x75u8, 0x61u8]
}

pub fn ua_k_v() -> (r: Vec<u8>)
    ensures
        r@ =~= ua_k_b(),
{
    let v: Vec<u8> = vec![0x75u8, 0x61u8];
    v
}

/// ``features`` as bytes.
pub open spec fn features_k_b() -> Seq<u8> {
    seq![0x66u8, 0x65u8, 0x61u8, 0x74u8, 0x75u8, 0x72u8, 0x65u8, 0x73u8]
}

pub fn features_k_v() -> (r: Vec<u8>)
    ensures
        r@ =~= features_k_b(),
{
    let v: Vec<u8> = vec![0x66u8, 0x65u8, 0x61u8, 0x74u8, 0x75u8, 0x72u8, 0x65u8, 0x73u8];
    v
}

/// ``excludes`` as bytes.
pub open spec fn excludes_k_b() -> Seq<u8> {
    seq![0x65u8, 0x78u8, 0x63u8, 0x6cu8, 0x75u8, 0x64u8, 0x65u8, 0x73u8]
}

pub fn excludes_k_v() -> (r: Vec<u8>)
    ensures
        r@ =~= excludes_k_b(),
{
    let v: Vec<u8> = vec![0x65u8, 0x78u8, 0x63u8, 0x6cu8, 0x75u8, 0x64u8, 0x65u8, 0x73u8];
    v
}

/// ``callback`` as bytes.
pub open spec fn callback_k_b() -> Seq<u8> {
    seq![0x63u8, 0x61u8, 0x6cu8, 0x6cu8, 0x62u8, 0x61u8, 0x63u8, 0x6bu8]
}

pub fn callback_k_v() -> (r: Vec<u8>)
    ensures
        r@ =~= callback_k_b(),
{
    let v: Vec<u8> = vec![0x63u8, 0x61u8, 0x6cu8, 0x6cu8, 0x62u8, 0x61u8, 0x63u8, 0x6bu8];
    v
}

/// ``unknown`` as bytes.
pub open spec fn unknown_k_b() -> Seq<u8> {
    seq![0x75u8, 0x6eu8, 0x6bu8, 0x6eu8, 0x6fu8, 0x77u8, 0x6eu8]
}

pub fn unknown_k_v() -> (r: Vec<u8>)
    ensures
        r@ =~= unknown_k_b(),
{
    let v: Vec<u8> = vec![0x75u8, 0x6eu8, 0x6bu8, 0x6eu8, 0x6fu8, 0x77u8, 0x6eu8];
    v
}

/// ``strict`` as bytes.
pub open spec fn strict_k_b() -> Seq<u8> {
    seq![0x73u8, 0x74u8, 0x72u8, 0x69u8, 0x63u8, 0x74u8]
}

pub fn strict_k_v() -> (r: Vec<u8>)
    ensures
        r@ =~= strict_k_b(),
{
    let v: Vec<u8> = vec![0x73u8, 0x74u8, 0x72u8, 0x69u8, 0x63u8, 0x74u8];
    v
}

/// ``rum`` as bytes.
pub open spec fn rum_k_b() -> Seq<u8> {
    seq![0x72u8, 0x75u8, 0x6du8]
}

pub fn rum_k_v() -> (r: Vec<u8>)
    ensures
        r@ =~= rum_k_b(),
{
    let v: Vec<u8> = vec![0x72u8, 0x75u8, 0x6du8];
    v
}

/// ``ignore`` as bytes.
pub open spec fn ignore_v_b() -> Seq<u8> {
    seq![0x69u8, 0x67u8, 0x6eu8, 0x6fu8, 0x72u8, 0x65u8]
}

pub fn ignore_v_v() -> (r: Vec<u8>)
    ensures
        r@ =~= ignore_v_b(),
{
    let v: Vec<u8> = vec![0x69u8, 0x67u8, 0x6eu8, 0x6fu8, 0x72u8, 0x65u8];
    v
}

/// ``always`` as bytes.
pub open spec fn always_f_b() -> Seq<u8> {
    seq![0x61u8, 0x6cu8, 0x77u8, 0x61u8, 0x79u8, 0x73u8]
}

pub fn always_f_v() -> (r: Vec<u8>)
    ensures
        r@ =~= always_f_b(),
{
    let v: Vec<u8> = vec![0x61u8, 0x6cu8, 0x77u8, 0x61u8, 0x79u8, 0x73u8];
    v
}

/// ``gated`` as bytes.
pub open spec fn gated_f_b() -> Seq<u8> {
    seq![0x67u8, 0x61u8, 0x74u8, 0x65u8, 0x64u8]
}

pub fn gated_f_v() -> (r: Vec<u8>)
    ensures
        r@ =~= gated_f_b(),
{
    let v: Vec<u8> = vec![0x67u8, 0x61u8, 0x74u8, 0x65u8, 0x64u8];
    v
}

/// ``.min.js`` as bytes.
pub open spec fn min_js_suffix_b() -> Seq<u8> {
    seq![0x2eu8, 0x6du8, 0x69u8, 0x6eu8, 0x2eu8, 0x6au8, 0x73u8]
}

pub fn min_js_suffix_v() -> (r: Vec<u8>)
    ensures
        r@ =~= min_js_suffix_b(),
{
    let v: Vec<u8> = vec![0x2eu8, 0x6du8, 0x69u8, 0x6eu8, 0x2eu8, 0x6au8, 0x73u8];
    v
}

/// ``/v2/polyfill.js`` as bytes.
pub open spec fn v2_path_b() -> Seq<u8> {
    seq![0x2fu8, 0x76u8, 0x32u8, 0x2fu8, 0x70u8, 0x6fu8, 0x6cu8, 0x79u8, 0x66u8, 0x69u8, 0x6cu8, 0x6cu8, 0x2eu8, 0x6au8, 0x73u8]
}

pub fn v2_path_v() -> (r: Vec<u8>)
    ensures
        r@ =~= v2_path_b(),
{
    let v: Vec<u8> = vec![0x2fu8, 0x76u8, 0x32u8, 0x2fu8, 0x70u8, 0x6fu8, 0x6cu8, 0x79u8, 0x66u8, 0x69u8, 0x6cu8, 0x6cu8, 0x2eu8, 0x6au8, 0x73u8];
    v
}

/// ``/v2/polyfill.min.js`` as bytes.
pub open spec fn v2_min_path_b() -> Seq<u8> {
    seq![0x2fu8, 0x76u8, 0x32u8, 0x2fu8, 0x70u8, 0x6fu8, 0x6cu8, 0x79u8, 0x66u8, 0x69u8, 0x6cu8, 0x6cu8, 0x2eu8, 0x6du8, 0x69u8, 0x6eu8, 0x2eu8, 0x6au8, 0x73u8]
}

pub fn v2_min_path_v() -> (r: Vec<u8>)
    ensures
        r@ =~= v2_min_path_b(),
{
    let v: Vec<u8> = vec![0x2fu8, 0x76u8, 0x32u8, 0x2fu8, 0x70u8, 0x6fu8, 0x6cu8, 0x79u8, 0x66u8, 0x69u8, 0x6cu8, 0x6cu8, 0x2eu8, 0x6du8, 0x69u8, 0x6eu8, 0x2eu8, 0x6au8, 0x73u8];
    v
}

/// ``/v3/polyfill.js`` as bytes.
pub open spec fn v3_path_b() -> Seq<u8> {
    seq![0x2fu8, 0x76u8, 0x33u8, 0x2fu8, 0x70u8, 0x6fu8, 0x6cu8, 0x79u8, 0x66u8, 0x69u8, 0x6cu8, 0x6cu8, 0x2eu8, 0x6au8, 0x73u8]
}

pub fn v3_path_v() -> (r: Vec<u8>)
    ensures
        r@ =~= v3_path_b(),
{
    let v: Vec<u8> = vec![0x2fu8, 0x76u8, 0x33u8, 0x2fu8, 0x70u8, 0x6fu8, 0x6cu8, 0x79u8, 0x66u8, 0x69u8, 0x6cu8, 0x6cu8, 0x2eu8, 0x6au8, 0x73u8];
    v
}

/// ``/v3/polyfill.min.js`` as bytes.
pub open spec fn v3_min_path_b() -> Seq<u8> {
    seq![0x2fu8, 0x76u8, 0x33u8, 0x2fu8, 0x70u8, 0x6fu8, 0x6cu8, 0x79u8, 0x66u8, 0x69u8, 0x6cu8, 0x6cu8, 0x2eu8, 0x6du8, 0x69u8, 0x6eu8, 0x2eu8, 0x6au8, 0x73u8]
}

pub fn v3_min_path_v() -> (r: Vec<u8>)
    ensures
        r@ =~= v3_min_path_b(),
{
    let v: Vec<u8> = vec![0x2fu8, 0x76u8, 0x33u8, 0x2fu8, 0x70u8, 0x6fu8, 0x6cu8, 0x79u8, 0x66u8, 0x69u8, 0x6cu8, 0x6cu8, 0x2eu8, 0x6du8, 0x69u8, 0x6eu8, 0x2eu8, 0x6au8, 0x73u8];
    v
}

/// ``3.25.1`` as bytes.
pub open spec fn v2_version_b() -> Seq<u8> {
    seq![0x33u8, 0x2eu8, 0x32u8, 0x35u8, 0x2eu8, 0x31u8]
}

pub fn v2_version_v() -> (r: Vec<u8>)
    ensures
        r@ =~= v2_version_b(),
{
    let v: Vec<u8> = vec![0x33u8, 0x2eu8, 0x32u8, 0x35u8, 0x2eu8, 0x31u8];
    v
}

/// ``(function(self, undefined) {`` as bytes.
pub open spec fn iife_opener_b() -> Seq<u8> {
    seq![0x28u8, 0x66u8, 0x75u8, 0x6eu8, 0x63u8, 0x74u8, 0x69u8, 0x6fu8, 0x6eu8, 0x28u8, 0x73u8, 0x65u8, 0x6cu8, 0x66u8, 0x2cu8, 0x20u8, 0x75u8, 0x6eu8, 0x64u8, 0x65u8, 0x66u8, 0x69u8, 0x6eu8, 0x65u8, 0x64u8, 0x29u8, 0x20u8, 0x7bu8]
}

pub fn iife_opener_v() -> (r: Vec<u8>)
    ensures
        r@ =~= iife_opener_b(),
{
    let v: Vec<u8> = vec![0x28u8, 0x66u8, 0x75u8, 0x6eu8, 0x63u8, 0x74u8, 0x69u8, 0x6fu8, 0x6eu8, 0x28u8, 0x73u8, 0x65u8, 0x6cu8, 0x66u8, 0x2cu8, 0x20u8, 0x75u8, 0x6eu8, 0x64u8, 0x65u8, 0x66u8, 0x69u8, 0x6eu8, 0x65u8, 0x64u8, 0x29u8, 0x20u8, 0x7bu8];
    v
}

/// `}).call(`object` === typeof window && window || `object` === typeof self && self || `object` === typeof global && global || {});` as bytes.
pub open spec fn iife_closer_b() -> Seq<u8> {
    seq![0x7du8, 0x29u8, 0x2eu8, 0x63u8, 0x61u8, 0x6cu8, 0x6cu8, 0x28u8, 0x27u8, 0x6fu8, 0x62u8, 0x6au8, 0x65u8, 0x63u8, 0x74u8, 0x27u8, 0x20u8, 0x3du8, 0x3du8, 0x3du8, 0x20u8, 0x74u8, 0x79u8, 0x70u8, 0x65u8, 0x6fu8, 0x66u8, 0x20u8, 0x77u8, 0x69u8, 0x6eu8, 0x64u8, 0x6fu8, 0x77u8, 0x20u8, 0x26u8, 0x26u8, 0x20u8, 0x77u8, 0x69u8, 0x6eu8, 0x64u8, 0x6fu8, 0x77u8, 0x20u8, 0x7cu8, 0x7cu8, 0x20u8, 0x27u8, 0x6fu8, 0x62u8, 0x6au8, 0x65u8, 0x63u8, 0x74u8, 0x27u8, 0x20u8, 0x3du8, 0x3du8, 0x3du8, 0x20u8, 0x74u8, 0x79u8, 0x70u8, 0x65u8, 0x6fu8, 0x66u8, 0x20u8, 0x73u8, 0x65u8, 0x6cu8, 0x66u8, 0x20u8, 0x26u8, 0x26u8, 0x20u8, 0x73u8, 0x65u8, 0x6cu8, 0x66u8, 0x20u8, 0x7cu8, 0x7cu8, 0x20u8, 0x27u8, 0x6fu8, 0x62u8, 0x6au8, 0x65u8, 0x63u8, 0x74u8, 0x27u8, 0x20u8, 0x3du8, 0x3du8, 0x3du8, 0x20u8, 0x74u8, 0x79u8, 0x70u8, 0x65u8, 0x6fu8, 0x66u8, 0x20u8, 0x67u8, 0x6cu8, 0x6fu8, 0x62u8, 0x61u8, 0x6cu8, 0x20u8, 0x26u8, 0x26u8, 0x20u8, 0x67u8, 0x6cu8, 0x6fu8, 0x62u8, 0x61u8, 0x6cu8, 0x20u8, 0x7cu8, 0x7cu8, 0x20u8, 0x7bu8, 0x7du8, 0x29u8, 0x3bu8]
}

pub fn iife_closer_v() -> (r: Vec<u8>)
    ensures
        r@ =~= iife_closer_b(),
{
    let v: Vec<u8> = vec![0x7du8, 0x29u8, 0x2eu8, 0x63u8, 0x61u8, 0x6cu8, 0x6cu8, 0x28u8, 0x27u8, 0x6fu8, 0x62u8, 0x6au8, 0x65u8, 0x63u8, 0x74u8, 0x27u8, 0x20u8, 0x3du8, 0x3du8, 0x3du8, 0x20u8, 0x74u8, 0x79u8, 0x70u8, 0x65u8, 0x6fu8, 0x66u8, 0x20u8, 0x77u8, 0x69u8, 0x6eu8, 0x64u8, 0x6fu8, 0x77u8, 0x20u8, 0x26u8, 0x26u8, 0x20u8, 0x77u8, 0x69u8, 0x6eu8, 0x64u8, 0x6fu8, 0x77u8, 0x20u8, 0x7cu8, 0x7cu8, 0x20u8, 0x27u8, 0x6fu8, 0x62u8, 0x6au8, 0x65u8, 0x63u8, 0x74u8, 0x27u8, 0x20u8, 0x3du8, 0x3du8, 0x3du8, 0x20u8, 0x74u8, 0x79u8, 0x70u8, 0x65u8, 0x6fu8, 0x66u8, 0x20u8, 0x73u8, 0x65u8, 0x6cu8, 0x66u8, 0x20u8, 0x26u8, 0x26u8, 0x20u8, 0x73u8, 0x65u8, 0x6cu8, 0x66u8, 0x20u8, 0x7cu8, 0x7cu8, 0x20u8, 0x27u8, 0x6fu8, 0x62u8, 0x6au8, 0x65u8, 0x63u8, 0x74u8, 0x27u8, 0x20u8, 0x3du8, 0x3du8, 0x3du8, 0x20u8, 0x74u8, 0x79u8, 0x70u8, 0x65u8, 0x6fu8, 0x66u8, 0x20u8, 0x67u8, 0x6cu8, 0x6fu8, 0x62u8, 0x61u8, 0x6cu8, 0x20u8, 0x26u8, 0x26u8, 0x20u8, 0x67u8, 0x6cu8, 0x6fu8, 0x62u8, 0x61u8, 0x6cu8, 0x20u8, 0x7cu8, 0x7cu8, 0x20u8, 0x7bu8, 0x7du8, 0x29u8, 0x3bu8];
    v
}

/// ``/* polyfill-library bundle | version `` as bytes.
pub open spec fn header_start_b() -> Seq<u8> {
    seq![0x2fu8, 0x2au8, 0x20u8, 0x70u8, 0x6fu8, 0x6cu8, 0x79u8, 0x66u8, 0x69u8, 0x6cu8, 0x6cu8, 0x2du8, 0x6cu8, 0x69u8, 0x62u8, 0x72u8, 0x61u8, 0x72u8, 0x79u8, 0x20u8, 0x62u8, 0x75u8, 0x6eu8, 0x64u8, 0x6cu8, 0x65u8, 0x20u8, 0x7cu8, 0x20u8, 0x76u8, 0x65u8, 0x72u8, 0x73u8, 0x69u8, 0x6fu8, 0x6eu8, 0x20u8]
}

pub fn header_start_v() -> (r: Vec<u8>)
    ensures
        r@ =~= header_start_b(),
{
    let v: Vec<u8> = vec![0x2fu8, 0x2au8, 0x20u8, 0x70u8, 0x6fu8, 0x6cu8, 0x79u8, 0x66u8, 0x69u8, 0x6cu8, 0x6cu8, 0x2du8, 0x6cu8, 0x69u8, 0x62u8, 0x72u8, 0x61u8, 0x72u8, 0x79u8, 0x20u8, 0x62u8, 0x75u8, 0x6eu8, 0x64u8, 0x6cu8, 0x65u8, 0x20u8, 0x7cu8, 0x20u8, 0x76u8, 0x65u8, 0x72u8, 0x73u8, 0x69u8, 0x6fu8, 0x6eu8, 0x20u8];
    v
}

/// `` | features `` as bytes.
pub open spec fn header_features_b() -> Seq<u8> {
    seq![0x20u8, 0x7cu8, 0x20u8, 0x66u8, 0x65u8, 0x61u8, 0x74u8, 0x75u8, 0x72u8, 0x65u8, 0x73u8, 0x20u8]
}

pub fn header_features_v() -> (r: Vec<u8>)
    ensures
        r@ =~= header_features_b(),
{
    let v: Vec<u8> = vec![0x20u8, 0x7cu8, 0x20u8, 0x66u8, 0x65u8, 0x61u8, 0x74u8, 0x75u8, 0x72u8, 0x65u8, 0x73u8, 0x20u8];
    v
}

/// `` | ua `` as bytes.
pub open spec fn header_ua_b() -> Seq<u8> {
    seq![0x20u8, 0x7cu8, 0x20u8, 0x75u8, 0x61u8, 0x20u8]
}

pub fn header_ua_v() -> (r: Vec<u8>)
    ensures
        r@ =~= header_ua_b(),
{
    let v: Vec<u8> = vec![0x20u8, 0x7cu8, 0x20u8, 0x75u8, 0x61u8, 0x20u8];
    v
}

/// `` */\n`` as bytes.
pub open spec fn header_end_b() -> Seq<u8> {
    seq![0x20u8, 0x2au8, 0x2fu8, 0x0au8]
}

pub fn header_end_v() -> (r: Vec<u8>)
    ensures
        r@ =~= header_end_b(),
{
    let v: Vec<u8> = vec![0x20u8, 0x2au8, 0x2fu8, 0x0au8];
    v
}

/// ``/* no polyfills needed for this user agent */\n`` as bytes.
pub open spec fn empty_notice_b() -> Seq<u8> {
    seq![0x2fu8, 0x2au8, 0x20u8, 0x6eu8, 0x6fu8, 0x20u8, 0x70u8, 0x6fu8, 0x6cu8, 0x79u8, 0x66u8, 0x69u8, 0x6cu8, 0x6cu8, 0x73u8, 0x20u8, 0x6eu8, 0x65u8, 0x65u8, 0x64u8, 0x65u8, 0x64u8, 0x20u8, 0x66u8, 0x6fu8, 0x72u8, 0x20u8, 0x74u8, 0x68u8, 0x69u8, 0x73u8, 0x20u8, 0x75u8, 0x73u8, 0x65u8, 0x72u8, 0x20u8, 0x61u8, 0x67u8, 0x65u8, 0x6eu8, 0x74u8, 0x20u8, 0x2au8, 0x2fu8, 0x0au8]
}

pub fn empty_notice_v() -> (r: Vec<u8>)
    ensures
        r@ =~= empty_notice_b(),
{
    let v: Vec<u8> = vec![0x2fu8, 0x2au8, 0x20u8, 0x6eu8, 0x6fu8, 0x20u8, 0x70u8, 0x6fu8, 0x6cu8, 0x79u8, 0x66u8, 0x69u8, 0x6cu8, 0x6cu8, 0x73u8, 0x20u8, 0x6eu8, 0x65u8, 0x65u8, 0x64u8, 0x65u8, 0x64u8, 0x20u8, 0x66u8, 0x6fu8, 0x72u8, 0x20u8, 0x74u8, 0x68u8, 0x69u8, 0x73u8, 0x20u8, 0x75u8, 0x73u8, 0x65u8, 0x72u8, 0x20u8, 0x61u8, 0x67u8, 0x65u8, 0x6eu8, 0x74u8, 0x20u8, 0x2au8, 0x2fu8, 0x0au8];
    v
}

/// ``\ntypeof `` as bytes.
pub open spec fn cb_prefix_b() -> Seq<u8> {
    seq![0x0au8, 0x74u8, 0x79u8, 0x70u8, 0x65u8, 0x6fu8, 0x66u8, 0x20u8]
}

pub fn cb_prefix_v() -> (r: Vec<u8>)
    ensures
        r@ =~= cb_prefix_b(),
{
    let v: Vec<u8> = vec![0x0au8, 0x74u8, 0x79u8, 0x70u8, 0x65u8, 0x6fu8, 0x66u8, 0x20u8];
    v
}

/// `===`function` && ` as bytes.
pub open spec fn cb_mid_b() -> Seq<u8> {
    seq![0x3du8, 0x3du8, 0x3du8, 0x27u8, 0x66u8, 0x75u8, 0x6eu8, 0x63u8, 0x74u8, 0x69u8, 0x6fu8, 0x6eu8, 0x27u8, 0x20u8, 0x26u8, 0x26u8, 0x20u8]
}

pub fn cb_mid_v() -> (r: Vec<u8>)
    ensures
        r@ =~= cb_mid_b(),
{
    let v: Vec<u8> = vec![0x3du8, 0x3du8, 0x3du8, 0x27u8, 0x66u8, 0x75u8, 0x6eu8, 0x63u8, 0x74u8, 0x69u8, 0x6fu8, 0x6eu8, 0x27u8, 0x20u8, 0x26u8, 0x26u8, 0x20u8];
    v
}

/// ``();`` as bytes.
pub open spec fn cb_suffix_b() -> Seq<u8> {
    seq![0x28u8, 0x29u8, 0x3bu8]
}

pub fn cb_suffix_v() -> (r: Vec<u8>)
    ensures
        r@ =~= cb_suffix_b(),
{
    let v: Vec<u8> = vec![0x28u8, 0x29u8, 0x3bu8];
    v
}

/// ``if (!(`` as bytes.
pub open spec fn gate_open_b() -> Seq<u8> {
    seq![0x69u8, 0x66u8, 0x20u8, 0x28u8, 0x21u8, 0x28u8]
}

pub fn gate_open_v() -> (r: Vec<u8>)
    ensures
        r@ =~= gate_open_b(),
{
    let v: Vec<u8> = vec![0x69u8, 0x66u8, 0x20u8, 0x28u8, 0x21u8, 0x28u8];
    v
}

/// ``)) {\n`` as bytes.
pub open spec fn gate_mid_b() -> Seq<u8> {
    seq![0x29u8, 0x29u8, 0x20u8, 0x7bu8, 0x0au8]
}

pub fn gate_mid_v() -> (r: Vec<u8>)
    ensures
        r@ =~= gate_mid_b(),
{
    let v: Vec<u8> = vec![0x29u8, 0x29u8, 0x20u8, 0x7bu8, 0x0au8];
    v
}

/// ``\n}\n`` as bytes.
pub open spec fn gate_close_b() -> Seq<u8> {
    seq![0x0au8, 0x7du8, 0x0au8]
}

pub fn gate_close_v() -> (r: Vec<u8>)
    ensures
        r@ =~= gate_close_b(),
{
    let v: Vec<u8> = vec![0x0au8, 0x7du8, 0x0au8];
    v
}

/// ``\n`` as bytes.
pub open spec fn newline_b() -> Seq<u8> {
    seq![0x0au8]
}

pub fn newline_v() -> (r: Vec<u8>)
    ensures
        r@ =~= newline_b(),
{
    let v: Vec<u8> = vec![0x0au8];
    v
}

/// ``,`` as bytes.
pub open spec fn comma_b() -> Seq<u8> {
    seq![0x2cu8]
}

pub fn comma_v() -> (r: Vec<u8>)
    ensures
        r@ =~= comma_b(),
{
    let v: Vec<u8> = vec![0x2cu8];
    v
}

/// ``ie`` as bytes.
pub open spec fn f_ie_b() -> Seq<u8> {
    seq![0x69u8, 0x65u8]
}

pub fn f_ie_v() -> (r: Vec<u8>)
    ensures
        r@ =~= f_ie_b(),
{
    let v: Vec<u8> = vec![0x69u8, 0x65u8];
    v
}

/// ``ie_mob`` as bytes.
pub open spec fn f_ie_mob_b() -> Seq<u8> {
    seq![0x69u8, 0x65u8, 0x5fu8, 0x6du8, 0x6fu8, 0x62u8]
}

pub fn f_ie_mob_v() -> (r: Vec<u8>)
    ensures
        r@ =~= f_ie_mob_b(),
{
    let v: Vec<u8> = vec![0x69u8, 0x65u8, 0x5fu8, 0x6du8, 0x6fu8, 0x62u8];
    v
}

/// ``firefox`` as bytes.
pub open spec fn f_firefox_b() -> Seq<u8> {
    seq![0x66u8, 0x69u8, 0x72u8, 0x65u8, 0x66u8, 0x6fu8, 0x78u8]
}

pub fn f_firefox_v() -> (r: Vec<u8>)
    ensures
        r@ =~= f_firefox_b(),
{
    let v: Vec<u8> = vec![0x66u8, 0x69u8, 0x72u8, 0x65u8, 0x66u8, 0x6fu8, 0x78u8];
    v
}

/// ``firefox_mob`` as bytes.
pub open spec fn f_firefox_mob_b() -> Seq<u8> {
    seq![0x66u8, 0x69u8, 0x72u8, 0x65u8, 0x66u8, 0x6fu8, 0x78u8, 0x5fu8, 0x6du8, 0x6fu8, 0x62u8]
}

pub fn f_firefox_mob_v() -> (r: Vec<u8>)
    ensures
        r@ =~= f_firefox_mob_b(),
{
    let v: Vec<u8> = vec![0x66u8, 0x69u8, 0x72u8, 0x65u8, 0x66u8, 0x6fu8, 0x78u8, 0x5fu8, 0x6du8, 0x6fu8, 0x62u8];
    v
}

/// ``chrome`` as bytes.
pub open spec fn f_chrome_b() -> Seq<u8> {
    seq![0x63u8, 0x68u8, 0x72u8, 0x6fu8, 0x6du8, 0x65u8]
}

pub fn f_chrome_v() -> (r: Vec<u8>)
    ensures
        r@ =~= f_chrome_b(),
{
    let v: Vec<u8> = vec![0x63u8, 0x68u8, 0x72u8, 0x6fu8, 0x6du8, 0x65u8];
    v
}

/// ``chrome_mob`` as bytes.
pub open spec fn f_chrome_mob_b() -> Seq<u8> {
    seq![0x63u8, 0x68u8, 0x72u8, 0x6fu8, 0x6du8, 0x65u8, 0x5fu8, 0x6du8, 0x6fu8, 0x62u8]
}

pub fn f_chrome_mob_v() -> (r: Vec<u8>)
    ensures
        r@ =~= f_chrome_mob_b(),
{
    let v: Vec<u8> = vec![0x63u8, 0x68u8, 0x72u8, 0x6fu8, 0x6du8, 0x65u8, 0x5fu8, 0x6du8, 0x6fu8, 0x62u8];
    v
}

/// ``safari`` as bytes.
pub open spec fn f_safari_b() -> Seq<u8> {
    seq![0x73u8, 0x61u8, 0x66u8, 0x61u8, 0x72u8, 0x69u8]
}

pub fn f_safari_v() -> (r: Vec<u8>)
    ensures
        r@ =~= f_safari_b(),
{
    let v: Vec<u8> = vec![0x73u8, 0x61u8, 0x66u8, 0x61u8, 0x72u8, 0x69u8];
    v
}

/// ``ios_saf`` as bytes.
pub open spec fn f_ios_saf_b() -> Seq<u8> {
    seq![0x69u8, 0x6fu8, 0x73u8, 0x5fu8, 0x73u8, 0x61u8, 0x66u8]
}

pub fn f_ios_saf_v() -> (r: Vec<u8>)
    ensures
        r@ =~= f_ios_saf_b(),
{
    let v: Vec<u8> = vec![0x69u8, 0x6fu8, 0x73u8, 0x5fu8, 0x73u8, 0x61u8, 0x66u8];
    v
}

/// ``ios_chr`` as bytes.
pub open spec fn f_ios_chr_b() -> Seq<u8> {
    seq![0x69u8, 0x6fu8, 0x73u8, 0x5fu8, 0x63u8, 0x68u8, 0x72u8]
}

pub fn f_ios_chr_v() -> (r: Vec<u8>)
    ensures
        r@ =~= f_ios_chr_b(),
{
    let v: Vec<u8> = vec![0x69u8, 0x6fu8, 0x73u8, 0x5fu8, 0x63u8, 0x68u8, 0x72u8];
    v
}

/// ``opera`` as bytes.
pub open spec fn f_opera_b() -> Seq<u8> {
    seq![0x6fu8, 0x70u8, 0x65u8, 0x72u8, 0x61u8]
}

pub fn f_opera_v() -> (r: Vec<u8>)
    ensures
        r@ =~= f_opera_b(),
{
    let v: Vec<u8> = vec![0x6fu8, 0x70u8, 0x65u8, 0x72u8, 0x61u8];
    v
}

/// ``opera_mob`` as bytes.
pub open spec fn f_opera_mob_b() -> Seq<u8> {
    seq![0x6fu8, 0x70u8, 0x65u8, 0x72u8, 0x61u8, 0x5fu8, 0x6du8, 0x6fu8, 0x62u8]
}

pub fn f_opera_mob_v() -> (r: Vec<u8>)
    ensures
        r@ =~= f_opera_mob_b(),
{
    let v: Vec<u8> = vec![0x6fu8, 0x70u8, 0x65u8, 0x72u8, 0x61u8, 0x5fu8, 0x6du8, 0x6fu8, 0x62u8];
    v
}

/// ``opera_mini`` as bytes.
pub open spec fn f_opera_mini_b() -> Seq<u8> {
    seq![0x6fu8, 0x70u8, 0x65u8, 0x72u8, 0x61u8, 0x5fu8, 0x6du8, 0x69u8, 0x6eu8, 0x69u8]
}

pub fn f_opera_mini_v() -> (r: Vec<u8>)
    ensures
        r@ =~= f_opera_mini_b(),
{
    let v: Vec<u8> = vec![0x6fu8, 0x70u8, 0x65u8, 0x72u8, 0x61u8, 0x5fu8, 0x6du8, 0x69u8, 0x6eu8, 0x69u8];
    v
}

/// ``edge`` as bytes.
pub open spec fn f_edge_b() -> Seq<u8> {
    seq![0x65u8, 0x64u8, 0x67u8, 0x65u8]
}

pub fn f_edge_v() -> (r: Vec<u8>)
    ensures
        r@ =~= f_edge_b(),
{
    let v: Vec<u8> = vec![0x65u8, 0x64u8, 0x67u8, 0x65u8];
    v
}

/// ``edge_mob`` as bytes.
pub open spec fn f_edge_mob_b() -> Seq<u8> {
    seq![0x65u8, 0x64u8, 0x67u8, 0x65u8, 0x5fu8, 0x6du8, 0x6fu8, 0x62u8]
}

pub fn f_edge_mob_v() -> (r: Vec<u8>)
    ensures
        r@ =~= f_edge_mob_b(),
{
    let v: Vec<u8> = vec![0x65u8, 0x64u8, 0x67u8, 0x65u8, 0x5fu8, 0x6du8, 0x6fu8, 0x62u8];
    v
}

/// ``samsung_mob`` as bytes.
pub open spec fn f_samsung_mob_b() -> Seq<u8> {
    seq![0x73u8, 0x61u8, 0x6du8, 0x73u8, 0x75u8, 0x6eu8, 0x67u8, 0x5fu8, 0x6du8, 0x6fu8, 0x62u8]
}

pub fn f_samsung_mob_v() -> (r: Vec<u8>)
    ensures
        r@ =~= f_samsung_mob_b(),
{
    let v: Vec<u8> = vec![0x73u8, 0x61u8, 0x6du8, 0x73u8, 0x75u8, 0x6eu8, 0x67u8, 0x5fu8, 0x6du8, 0x6fu8, 0x62u8];
    v
}

/// ``yandex_browser`` as bytes.
pub open spec fn f_yandex_browser_b() -> Seq<u8> {
    seq![0x79u8, 0x61u8, 0x6eu8, 0x64u8, 0x65u8, 0x78u8, 0x5fu8, 0x62u8, 0x72u8, 0x6fu8, 0x77u8, 0x73u8, 0x65u8, 0x72u8]
}

pub fn f_yandex_browser_v() -> (r: Vec<u8>)
    ensures
        r@ =~= f_yandex_browser_b(),
{
    let v: Vec<u8> = vec![0x79u8, 0x61u8, 0x6eu8, 0x64u8, 0x65u8, 0x78u8, 0x5fu8, 0x62u8, 0x72u8, 0x6fu8, 0x77u8, 0x73u8, 0x65u8, 0x72u8];
    v
}

/// ``googlebot`` as bytes.
pub open spec fn f_googlebot_b() -> Seq<u8> {
    seq![0x67u8, 0x6fu8, 0x6fu8, 0x67u8, 0x6cu8, 0x65u8, 0x62u8, 0x6fu8, 0x74u8]
}

pub fn f_googlebot_v() -> (r: Vec<u8>)
    ensures
        r@ =~= f_googlebot_b(),
{
    let v: Vec<u8> = vec![0x67u8, 0x6fu8, 0x6fu8, 0x67u8, 0x6cu8, 0x65u8, 0x62u8, 0x6fu8, 0x74u8];
    v
}

/// ``unknown`` as bytes.
pub open spec fn f_unknown_b() -> Seq<u8> {
    seq![0x75u8, 0x6eu8, 0x6bu8, 0x6eu8, 0x6fu8, 0x77u8, 0x6eu8]
}

pub fn f_unknown_v() -> (r: Vec<u8>)
    ensures
        r@ =~= f_unknown_b(),
{
    let v: Vec<u8> = vec![0x75u8, 0x6eu8, 0x6bu8, 0x6eu8, 0x6fu8, 0x77u8, 0x6eu8];
    v
}

/// ``polyfill`` as bytes.
pub open spec fn p_polyfill_b() -> Seq<u8> {
    seq![0x70u8, 0x6fu8, 0x6cu8, 0x79u8, 0x66u8, 0x69u8, 0x6cu8, 0x6cu8]
}

pub fn p_polyfill_v() -> (r: Vec<u8>)
    ensures
        r@ =~= p_polyfill_b(),
{
    let v: Vec<u8> = vec![0x70u8, 0x6fu8, 0x6cu8, 0x79u8, 0x66u8, 0x69u8, 0x6cu8, 0x6cu8];
    v
}

/// ``IEMobile/`` as bytes.
pub open spec fn n_iemobile_b() -> Seq<u8> {
    seq![0x49u8, 0x45u8, 0x4du8, 0x6fu8, 0x62u8, 0x69u8, 0x6cu8, 0x65u8, 0x2fu8]
}

pub fn n_iemobile_v() -> (r: Vec<u8>)
    ensures
        r@ =~= n_iemobile_b(),
{
    let v: Vec<u8> = vec![0x49u8, 0x45u8, 0x4du8, 0x6fu8, 0x62u8, 0x69u8, 0x6cu8, 0x65u8, 0x2fu8];
    v
}

/// ``MSIE `` as bytes.
pub open spec fn n_msie_b() -> Seq<u8> {
    seq![0x4du8, 0x53u8, 0x49u8, 0x45u8, 0x20u8]
}

pub fn n_msie_v() -> (r: Vec<u8>)
    ensures
        r@ =~= n_msie_b(),
{
    let v: Vec<u8> = vec![0x4du8, 0x53u8, 0x49u8, 0x45u8, 0x20u8];
    v
}

/// ``Trident/`` as bytes.
pub open spec fn n_trident_b() -> Seq<u8> {
    seq![0x54u8, 0x72u8, 0x69u8, 0x64u8, 0x65u8, 0x6eu8, 0x74u8, 0x2fu8]
}

pub fn n_trident_v() -> (r: Vec<u8>)
    ensures
        r@ =~= n_trident_b(),
{
    let v: Vec<u8> = vec![0x54u8, 0x72u8, 0x69u8, 0x64u8, 0x65u8, 0x6eu8, 0x74u8, 0x2fu8];
    v
}

/// ``rv:`` as bytes.
pub open spec fn n_rv_b() -> Seq<u8> {
    seq![0x72u8, 0x76u8, 0x3au8]
}

pub fn n_rv_v() -> (r: Vec<u8>)
    ensures
        r@ =~= n_rv_b(),
{
    let v: Vec<u8> = vec![0x72u8, 0x76u8, 0x3au8];
    v
}

/// ``Edge/`` as bytes.
pub open spec fn n_edge_b() -> Seq<u8> {
    seq![0x45u8, 0x64u8, 0x67u8, 0x65u8, 0x2fu8]
}

pub fn n_edge_v() -> (r: Vec<u8>)
    ensures
        r@ =~= n_edge_b(),
{
    let v: Vec<u8> = vec![0x45u8, 0x64u8, 0x67u8, 0x65u8, 0x2fu8];
    v
}

/// ``EdgA/`` as bytes.
pub open spec fn n_edga_b() -> Seq<u8> {
    seq![0x45u8, 0x64u8, 0x67u8, 0x41u8, 0x2fu8]
}

pub fn n_edga_v() -> (r: Vec<u8>)
    ensures
        r@ =~= n_edga_b(),
{
    let v: Vec<u8> = vec![0x45u8, 0x64u8, 0x67u8, 0x41u8, 0x2fu8];
    v
}

/// ``SamsungBrowser/`` as bytes.
pub open spec fn n_samsung_b() -> Seq<u8> {
    seq![0x53u8, 0x61u8, 0x6du8, 0x73u8, 0x75u8, 0x6eu8, 0x67u8, 0x42u8, 0x72u8, 0x6fu8, 0x77u8, 0x73u8, 0x65u8, 0x72u8, 0x2fu8]
}

pub fn n_samsung_v() -> (r: Vec<u8>)
    ensures
        r@ =~= n_samsung_b(),
{
    let v: Vec<u8> = vec![0x53u8, 0x61u8, 0x6du8, 0x73u8, 0x75u8, 0x6eu8, 0x67u8, 0x42u8, 0x72u8, 0x6fu8, 0x77u8, 0x73u8, 0x65u8, 0x72u8, 0x2fu8];
    v
}

/// ``YaBrowser/`` as bytes.
pub open spec fn n_yabrowser_b() -> Seq<u8> {
    seq![0x59u8, 0x61u8, 0x42u8, 0x72u8, 0x6fu8, 0x77u8, 0x73u8, 0x65u8, 0x72u8, 0x2fu8]
}

pub fn n_yabrowser_v() -> (r: Vec<u8>)
    ensures
        r@ =~= n_yabrowser_b(),
{
    let v: Vec<u8> = vec![0x59u8, 0x61u8, 0x42u8, 0x72u8, 0x6fu8, 0x77u8, 0x73u8, 0x65u8, 0x72u8, 0x2fu8];
    v
}

/// ``Opera Mini/`` as bytes.
pub open spec fn n_opera_mini_b() -> Seq<u8> {
    seq![0x4fu8, 0x70u8, 0x65u8, 0x72u8, 0x61u8, 0x20u8, 0x4du8, 0x69u8, 0x6eu8, 0x69u8, 0x2fu8]
}

pub fn n_opera_mini_v() -> (r: Vec<u8>)
    ensures
        r@ =~= n_opera_mini_b(),
{
    let v: Vec<u8> = vec![0x4fu8, 0x70u8, 0x65u8, 0x72u8, 0x61u8, 0x20u8, 0x4du8, 0x69u8, 0x6eu8, 0x69u8, 0x2fu8];
    v
}

/// ``Opera Mobi`` as bytes.
pub open spec fn n_opera_mobi_b() -> Seq<u8> {
    seq![0x4fu8, 0x70u8, 0x65u8, 0x72u8, 0x61u8, 0x20u8, 0x4du8, 0x6fu8, 0x62u8, 0x69u8]
}

pub fn n_opera_mobi_v() -> (r: Vec<u8>)
    ensures
        r@ =~= n_opera_mobi_b(),
{
    let v: Vec<u8> = vec![0x4fu8, 0x70u8, 0x65u8, 0x72u8, 0x61u8, 0x20u8, 0x4du8, 0x6fu8, 0x62u8, 0x69u8];
    v
}

/// ``OPR/`` as bytes.
pub open spec fn n_opr_b() -> Seq<u8> {
    seq![0x4fu8, 0x50u8, 0x52u8, 0x2fu8]
}

pub fn n_opr_v() -> (r: Vec<u8>)
    ensures
        r@ =~= n_opr_b(),
{
    let v: Vec<u8> = vec![0x4fu8, 0x50u8, 0x52u8, 0x2fu8];
    v
}

/// ``Opera/`` as bytes.
pub open spec fn n_opera_slash_b() -> Seq<u8> {
    seq![0x4fu8, 0x70u8, 0x65u8, 0x72u8, 0x61u8, 0x2fu8]
}

pub fn n_opera_slash_v() -> (r: Vec<u8>)
    ensures
        r@ =~= n_opera_slash_b(),
{
    let v: Vec<u8> = vec![0x4fu8, 0x70u8, 0x65u8, 0x72u8, 0x61u8, 0x2fu8];
    v
}

/// ``CriOS/`` as bytes.
pub open spec fn n_crios_b() -> Seq<u8> {
    seq![0x43u8, 0x72u8, 0x69u8, 0x4fu8, 0x53u8, 0x2fu8]
}

pub fn n_crios_v() -> (r: Vec<u8>)
    ensures
        r@ =~= n_crios_b(),
{
    let v: Vec<u8> = vec![0x43u8, 0x72u8, 0x69u8, 0x4fu8, 0x53u8, 0x2fu8];
    v
}

/// ``Googlebot`` as bytes.
pub open spec fn n_googlebot_b() -> Seq<u8> {
    seq![0x47u8, 0x6fu8, 0x6fu8, 0x67u8, 0x6cu8, 0x65u8, 0x62u8, 0x6fu8, 0x74u8]
}

pub fn n_googlebot_v() -> (r: Vec<u8>)
    ensures
        r@ =~= n_googlebot_b(),
{
    let v: Vec<u8> = vec![0x47u8, 0x6fu8, 0x6fu8, 0x67u8, 0x6cu8, 0x65u8, 0x62u8, 0x6fu8, 0x74u8];
    v
}

/// ``Googlebot/`` as bytes.
pub open spec fn n_googlebot_slash_b() -> Seq<u8> {
    seq![0x47u8, 0x6fu8, 0x6fu8, 0x67u8, 0x6cu8, 0x65u8, 0x62u8, 0x6fu8, 0x74u8, 0x2fu8]
}

pub fn n_googlebot_slash_v() -> (r: Vec<u8>)
    ensures
        r@ =~= n_googlebot_slash_b(),
{
    let v: Vec<u8> = vec![0x47u8, 0x6fu8, 0x6fu8, 0x67u8, 0x6cu8, 0x65u8, 0x62u8, 0x6fu8, 0x74u8, 0x2fu8];
    v
}

/// ``Firefox/`` as bytes.
pub open spec fn n_firefox_b() -> Seq<u8> {
    seq![0x46u8, 0x69u8, 0x72u8, 0x65u8, 0x66u8, 0x6fu8, 0x78u8, 0x2fu8]
}

pub fn n_firefox_v() -> (r: Vec<u8>)
    ensures
        r@ =~= n_firefox_b(),
{
    let v: Vec<u8> = vec![0x46u8, 0x69u8, 0x72u8, 0x65u8, 0x66u8, 0x6fu8, 0x78u8, 0x2fu8];
    v
}

/// ``Mobile`` as bytes.
pub open spec fn n_mobile_b() -> Seq<u8> {
    seq![0x4du8, 0x6fu8, 0x62u8, 0x69u8, 0x6cu8, 0x65u8]
}

pub fn n_mobile_v() -> (r: Vec<u8>)
    ensures
        r@ =~= n_mobile_b(),
{
    let v: Vec<u8> = vec![0x4du8, 0x6fu8, 0x62u8, 0x69u8, 0x6cu8, 0x65u8];
    v
}

/// ``Chrome/`` as bytes.
pub open spec fn n_chrome_b() -> Seq<u8> {
    seq![0x43u8, 0x68u8, 0x72u8, 0x6fu8, 0x6du8, 0x65u8, 0x2fu8]
}

pub fn n_chrome_v() -> (r: Vec<u8>)
    ensures
        r@ =~= n_chrome_b(),
{
    let v: Vec<u8> = vec![0x43u8, 0x68u8, 0x72u8, 0x6fu8, 0x6du8, 0x65u8, 0x2fu8];
    v
}

/// ``iPhone`` as bytes.
pub open spec fn n_iphone_b() -> Seq<u8> {
    seq![0x69u8, 0x50u8, 0x68u8, 0x6fu8, 0x6eu8, 0x65u8]
}

pub fn n_iphone_v() -> (r: Vec<u8>)
    ensures
        r@ =~= n_iphone_b(),
{
    let v: Vec<u8> = vec![0x69u8, 0x50u8, 0x68u8, 0x6fu8, 0x6eu8, 0x65u8];
    v
}

/// ``iPad`` as bytes.
pub open spec fn n_ipad_b() -> Seq<u8> {
    seq![0x69u8, 0x50u8, 0x61u8, 0x64u8]
}

pub fn n_ipad_v() -> (r: Vec<u8>)
    ensures
        r@ =~= n_ipad_b(),
{
    let v: Vec<u8> = vec![0x69u8, 0x50u8, 0x61u8, 0x64u8];
    v
}

/// ``Version/`` as bytes.
pub open spec fn n_version_b() -> Seq<u8> {
    seq![0x56u8, 0x65u8, 0x72u8, 0x73u8, 0x69u8, 0x6fu8, 0x6eu8, 0x2fu8]
}

pub fn n_version_v() -> (r: Vec<u8>)
    ensures
        r@ =~= n_version_b(),
{
    let v: Vec<u8> = vec![0x56u8, 0x65u8, 0x72u8, 0x73u8, 0x69u8, 0x6fu8, 0x6eu8, 0x2fu8];
    v
}

/// ``Safari/`` as bytes.
pub open spec fn n_safari_b() -> Seq<u8> {
    seq![0x53u8, 0x61u8, 0x66u8, 0x61u8, 0x72u8, 0x69u8, 0x2fu8]
}

pub fn n_safari_v() -> (r: Vec<u8>)
    ensures
        r@ =~= n_safari_b(),
{
    let v: Vec<u8> = vec![0x53u8, 0x61u8, 0x66u8, 0x61u8, 0x72u8, 0x69u8, 0x2fu8];
    v
}

/// ``/`` as bytes.
pub open spec fn slash_b() -> Seq<u8> {
    seq![0x2fu8]
}

pub fn slash_v() -> (r: Vec<u8>)
    ensures
        r@ =~= slash_b(),
{
    let v: Vec<u8> = vec![0x2fu8];
    v
}

/// ``3.101.0`` as bytes.
pub open spec fn ver_3_101_0_b() -> Seq<u8> {
    seq![0x33u8, 0x2eu8, 0x31u8, 0x30u8, 0x31u8, 0x2eu8, 0x30u8]
}

pub fn ver_3_101_0_v() -> (r: Vec<u8>)
    ensures
        r@ =~= ver_3_101_0_b(),
{
    let v: Vec<u8> = vec![0x33u8, 0x2eu8, 0x31u8, 0x30u8, 0x31u8, 0x2eu8, 0x30u8];
    v
}

/// ``3.103.0`` as bytes.
pub open spec fn ver_3_103_0_b() -> Seq<u8> {
    seq![0x33u8, 0x2eu8, 0x31u8, 0x30u8, 0x33u8, 0x2eu8, 0x30u8]
}

pub fn ver_3_103_0_v() -> (r: Vec<u8>)
    ensures
        r@ =~= ver_3_103_0_b(),
{
    let v: Vec<u8> = vec![0x33u8, 0x2eu8, 0x31u8, 0x30u8, 0x33u8, 0x2eu8, 0x30u8];
    v
}

/// ``3.104.0`` as bytes.
pub open spec fn ver_3_104_0_b() -> Seq<u8> {
    seq![0x33u8, 0x2eu8, 0x31u8, 0x30u8, 0x34u8, 0x2eu8, 0x30u8]
}

pub fn ver_3_104_0_v() -> (r: Vec<u8>)
    ensures
        r@ =~= ver_3_104_0_b(),
{
    let v: Vec<u8> = vec![0x33u8, 0x2eu8, 0x31u8, 0x30u8, 0x34u8, 0x2eu8, 0x30u8];
    v
}

/// ``3.108.0`` as bytes.
pub open spec fn ver_3_108_0_b() -> Seq<u8> {
    seq![0x33u8, 0x2eu8, 0x31u8, 0x30u8, 0x38u8, 0x2eu8, 0x30u8]
}

pub fn ver_3_108_0_v() -> (r: Vec<u8>)
    ensures
        r@ =~= ver_3_108_0_b(),
{
    let v: Vec<u8> = vec![0x33u8, 0x2eu8, 0x31u8, 0x30u8, 0x38u8, 0x2eu8, 0x30u8];
    v
}

/// ``3.109.0`` as bytes.
pub open spec fn ver_3_109_0_b() -> Seq<u8> {
    seq![0x33u8, 0x2eu8, 0x31u8, 0x30u8, 0x39u8, 0x2eu8, 0x30u8]
}

pub fn ver_3_109_0_v() -> (r: Vec<u8>)
    ensures
        r@ =~= ver_3_109_0_b(),
{
    let v: Vec<u8> = vec![0x33u8, 0x2eu8, 0x31u8, 0x30u8, 0x39u8, 0x2eu8, 0x30u8];
    v
}

/// ``3.110.1`` as bytes.
pub open spec fn ver_3_110_1_b() -> Seq<u8> {
    seq![0x33u8, 0x2eu8, 0x31u8, 0x31u8, 0x30u8, 0x2eu8, 0x31u8]
}

pub fn ver_3_110_1_v() -> (r: Vec<u8>)
    ensures
        r@ =~= ver_3_110_1_b(),
{
    let v: Vec<u8> = vec![0x33u8, 0x2eu8, 0x31u8, 0x31u8, 0x30u8, 0x2eu8, 0x31u8];
    v
}

/// ``3.111.0`` as bytes.
pub open spec fn ver_3_111_0_b() -> Seq<u8> {
    seq![0x33u8, 0x2eu8, 0x31u8, 0x31u8, 0x31u8, 0x2eu8, 0x30u8]
}

pub fn ver_3_111_0_v() -> (r: Vec<u8>)
    ensures
        r@ =~= ver_3_111_0_b(),
{
    let v: Vec<u8> = vec![0x33u8, 0x2eu8, 0x31u8, 0x31u8, 0x31u8, 0x2eu8, 0x30u8];
    v
}

/// ``3.25.1`` as bytes.
pub open spec fn ver_3_25_1_b() -> Seq<u8> {
    seq![0x33u8, 0x2eu8, 0x32u8, 0x35u8, 0x2eu8, 0x31u8]
}

pub fn ver_3_25_1_v() -> (r: Vec<u8>)
    ensures
        r@ =~= ver_3_25_1_b(),
{
    let v: Vec<u8> = vec![0x33u8, 0x2eu8, 0x32u8, 0x35u8, 0x2eu8, 0x31u8];
    v
}

/// ``3.27.4`` as bytes.
pub open spec fn ver_3_27_4_b() -> Seq<u8> {
    seq![0x33u8, 0x2eu8, 0x32u8, 0x37u8, 0x2eu8, 0x34u8]
}

pub fn ver_3_27_4_v() -> (r: Vec<u8>)
    ensures
        r@ =~= ver_3_27_4_b(),
{
    let v: Vec<u8> = vec![0x33u8, 0x2eu8, 0x32u8, 0x37u8, 0x2eu8, 0x34u8];
    v
}

/// ``3.34.0`` as bytes.
pub open spec fn ver_3_34_0_b() -> Seq<u8> {
    seq![0x33u8, 0x2eu8, 0x33u8, 0x34u8, 0x2eu8, 0x30u8]
}

pub fn ver_3_34_0_v() -> (r: Vec<u8>)
    ensures
        r@ =~= ver_3_34_0_b(),
{
    let v: Vec<u8> = vec![0x33u8, 0x2eu8, 0x33u8, 0x34u8, 0x2eu8, 0x30u8];
    v
}

/// ``3.39.0`` as bytes.
pub open spec fn ver_3_39_0_b() -> Seq<u8> {
    seq![0x33u8, 0x2eu8, 0x33u8, 0x39u8, 0x2eu8, 0x30u8]
}

pub fn ver_3_39_0_v() -> (r: Vec<u8>)
    ensures
        r@ =~= ver_3_39_0_b(),
{
    let v: Vec<u8> = vec![0x33u8, 0x2eu8, 0x33u8, 0x39u8, 0x2eu8, 0x30u8];
    v
}

/// ``3.40.0`` as bytes.
pub open spec fn ver_3_40_0_b() -> Seq<u8> {
    seq![0x33u8, 0x2eu8, 0x34u8, 0x30u8, 0x2eu8, 0x30u8]
}

pub fn ver_3_40_0_v() -> (r: Vec<u8>)
    ensures
        r@ =~= ver_3_40_0_b(),
{
    let v: Vec<u8> = vec![0x33u8, 0x2eu8, 0x34u8, 0x30u8, 0x2eu8, 0x30u8];
    v
}

/// ``3.41.0`` as bytes.
pub open spec fn ver_3_41_0_b() -> Seq<u8> {
    seq![0x33u8, 0x2eu8, 0x34u8, 0x31u8, 0x2eu8, 0x30u8]
}

pub fn ver_3_41_0_v() -> (r: Vec<u8>)
    ensures
        r@ =~= ver_3_41_0_b(),
{
    let v: Vec<u8> = vec![0x33u8, 0x2eu8, 0x34u8, 0x31u8, 0x2eu8, 0x30u8];
    v
}

/// ``3.42.0`` as bytes.
pub open spec fn ver_3_42_0_b() -> Seq<u8> {
    seq![0x33u8, 0x2eu8, 0x34u8, 0x32u8, 0x2eu8, 0x30u8]
}

pub fn ver_3_42_0_v() -> (r: Vec<u8>)
    ensures
        r@ =~= ver_3_42_0_b(),
{
    let v: Vec<u8> = vec![0x33u8, 0x2eu8, 0x34u8, 0x32u8, 0x2eu8, 0x30u8];
    v
}

/// ``3.46.0`` as bytes.
pub open spec fn ver_3_46_0_b() -> Seq<u8> {
    seq![0x33u8, 0x2eu8, 0x34u8, 0x36u8, 0x2eu8, 0x30u8]
}

pub fn ver_3_46_0_v() -> (r: Vec<u8>)
    ensures
        r@ =~= ver_3_46_0_b(),
{
    let v: Vec<u8> = vec![0x33u8, 0x2eu8, 0x34u8, 0x36u8, 0x2eu8, 0x30u8];
    v
}

/// ``3.48.0`` as bytes.
pub open spec fn ver_3_48_0_b() -> Seq<u8> {
    seq![0x33u8, 0x2eu8, 0x34u8, 0x38u8, 0x2eu8, 0x30u8]
}

pub fn ver_3_48_0_v() -> (r: Vec<u8>)
    ensures
        r@ =~= ver_3_48_0_b(),
{
    let v: Vec<u8> = vec![0x33u8, 0x2eu8, 0x34u8, 0x38u8, 0x2eu8, 0x30u8];
    v
}

/// ``3.50.2`` as bytes.
pub open spec fn ver_3_50_2_b() -> Seq<u8> {
    seq![0x33u8, 0x2eu8, 0x35u8, 0x30u8, 0x2eu8, 0x32u8]
}

pub fn ver_3_50_2_v() -> (r: Vec<u8>)
    ensures
        r@ =~= ver_3_50_2_b(),
{
    let v: Vec<u8> = vec![0x33u8, 0x2eu8, 0x35u8, 0x30u8, 0x2eu8, 0x32u8];
    v
}

/// ``3.51.0`` as bytes.
pub open spec fn ver_3_51_0_b() -> Seq<u8> {
    seq![0x33u8, 0x2eu8, 0x35u8, 0x31u8, 0x2eu8, 0x30u8]
}

pub fn ver_3_51_0_v() -> (r: Vec<u8>)
    ensures
        r@ =~= ver_3_51_0_b(),
{
    let v: Vec<u8> = vec![0x33u8, 0x2eu8, 0x35u8, 0x31u8, 0x2eu8, 0x30u8];
    v
}

/// ``3.52.0`` as bytes.
pub open spec fn ver_3_52_0_b() -> Seq<u8> {
    seq![0x33u8, 0x2eu8, 0x35u8, 0x32u8, 0x2eu8, 0x30u8]
}

pub fn ver_3_52_0_v() -> (r: Vec<u8>)
    ensures
        r@ =~= ver_3_52_0_b(),
{
    let v: Vec<u8> = vec![0x33u8, 0x2eu8, 0x35u8, 0x32u8, 0x2eu8, 0x30u8];
    v
}

/// ``3.52.1`` as bytes.
pub open spec fn ver_3_52_1_b() -> Seq<u8> {
    seq![0x33u8, 0x2eu8, 0x35u8, 0x32u8, 0x2eu8, 0x31u8]
}

pub fn ver_3_52_1_v() -> (r: Vec<u8>)
    ensures
        r@ =~= ver_3_52_1_b(),
{
    let v: Vec<u8> = vec![0x33u8, 0x2eu8, 0x35u8, 0x32u8, 0x2eu8, 0x31u8];
    v
}

/// ``3.52.2`` as bytes.
pub open spec fn ver_3_52_2_b() -> Seq<u8> {
    seq![0x33u8, 0x2eu8, 0x35u8, 0x32u8, 0x2eu8, 0x32u8]
}

pub fn ver_3_52_2_v() -> (r: Vec<u8>)
    ensures
        r@ =~= ver_3_52_2_b(),
{
    let v: Vec<u8> = vec![0x33u8, 0x2eu8, 0x35u8, 0x32u8, 0x2eu8, 0x32u8];
    v
}

/// ``3.52.3`` as bytes.
pub open spec fn ver_3_52_3_b() -> Seq<u8> {
    seq![0x33u8, 0x2eu8, 0x35u8, 0x32u8, 0x2eu8, 0x33u8]
}

pub fn ver_3_52_3_v() -> (r: Vec<u8>)
    ensures
        r@ =~= ver_3_52_3_b(),
{
    let v: Vec<u8> = vec![0x33u8, 0x2eu8, 0x35u8, 0x32u8, 0x2eu8, 0x33u8];
    v
}

/// ``3.53.1`` as bytes.
pub open spec fn ver_3_53_1_b() -> Seq<u8> {
    seq![0x33u8, 0x2eu8, 0x35u8, 0x33u8, 0x2eu8, 0x31u8]
}

pub fn ver_3_53_1_v() -> (r: Vec<u8>)
    ensures
        r@ =~= ver_3_53_1_b(),
{
    let v: Vec<u8> = vec![0x33u8, 0x2eu8, 0x35u8, 0x33u8, 0x2eu8, 0x31u8];
    v
}

/// ``3.89.4`` as bytes.
pub open spec fn ver_3_89_4_b() -> Seq<u8> {
    seq![0x33u8, 0x2eu8, 0x38u8, 0x39u8, 0x2eu8, 0x34u8]
}

pub fn ver_3_89_4_v() -> (r: Vec<u8>)
    ensures
        r@ =~= ver_3_89_4_b(),
{
    let v: Vec<u8> = vec![0x33u8, 0x2eu8, 0x38u8, 0x39u8, 0x2eu8, 0x34u8];
    v
}

/// ``3.96.0`` as bytes.
pub open spec fn ver_3_96_0_b() -> Seq<u8> {
    seq![0x33u8, 0x2eu8, 0x39u8, 0x36u8, 0x2eu8, 0x30u8]
}

pub fn ver_3_96_0_v() -> (r: Vec<u8>)
    ensures
        r@ =~= ver_3_96_0_b(),
{
    let v: Vec<u8> = vec![0x33u8, 0x2eu8, 0x39u8, 0x36u8, 0x2eu8, 0x30u8];
    v
}

/// ``3.98.0`` as bytes.
pub open spec fn ver_3_98_0_b() -> Seq<u8> {
    seq![0x33u8, 0x2eu8, 0x39u8, 0x38u8, 0x2eu8, 0x30u8]
}

pub fn ver_3_98_0_v() -> (r: Vec<u8>)
    ensures
        r@ =~= ver_3_98_0_b(),
{
    let v: Vec<u8> = vec![0x33u8, 0x2eu8, 0x39u8, 0x38u8, 0x2eu8, 0x30u8];
    v
}

/// ``4.8.0`` as bytes.
pub open spec fn ver_4_8_0_b() -> Seq<u8> {
    seq![0x34u8, 0x2eu8, 0x38u8, 0x2eu8, 0x30u8]
}

pub fn ver_4_8_0_v() -> (r: Vec<u8>)
    ensures
        r@ =~= ver_4_8_0_b(),
{
    let v: Vec<u8> = vec![0x34u8, 0x2eu8, 0x38u8, 0x2eu8, 0x30u8];
    v
}

/// ``{"version":"`` as bytes.
pub open spec fn json_pre_b() -> Seq<u8> {
    seq![0x7bu8, 0x22u8, 0x76u8, 0x65u8, 0x72u8, 0x73u8, 0x69u8, 0x6fu8, 0x6eu8, 0x22u8, 0x3au8, 0x22u8]
}

pub fn json_pre_v() -> (r: Vec<u8>)
    ensures
        r@ =~= json_pre_b(),
{
    let v: Vec<u8> = vec![0x7bu8, 0x22u8, 0x76u8, 0x65u8, 0x72u8, 0x73u8, 0x69u8, 0x6fu8, 0x6eu8, 0x22u8, 0x3au8, 0x22u8];
    v
}

/// ``"}`` as bytes.
pub open spec fn json_suf_b() -> Seq<u8> {
    seq![0x22u8, 0x7du8]
}

pub fn json_suf_v() -> (r: Vec<u8>)
    ensures
        r@ =~= json_suf_b(),
{
    let v: Vec<u8> = vec![0x22u8, 0x7du8];
    v
}

} // verus!