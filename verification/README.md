# sky_watch

Tools for photographing the sky and pairing each photo with the local
weather, and for turning folders of sky photos into tables of grayscale
samples and tiles.

- `src/` is the verified library (Verus): tile-grid geometry and its laws
  (`tiles`), image pipelines over plain pixel buffers that call the `image`
  crate (`raster`, `sampling`), session and file naming with uniqueness laws
  (`naming`, `clock`), weather-station selection (`stations`), CSV encoding
  through the `csv` crate (`table`) and the decision logic of the capture and
  logging loops (`cycle`).
- `app/` is the command-line front end: cameras (gphoto2, rascam), network
  (reqwest), files, JPEG compression (turbojpeg), serde rows and the float
  rescaling of pixel values.
- `tests/` exercises the library on concrete values.
